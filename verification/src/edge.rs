//! What the relay hands the HTTP edge: the response headers of an event
//! stream, the generic JSON error envelope, and the plain JSON envelope of
//! the non-streaming variant.

use vstd::prelude::*;
use vstd::string::StringExecFns;
use crate::text::dec_digits;
use crate::text::decimal;
use crate::text::encode_json_string;
use crate::text::json_string;

verus! {

/// The short label and description the edge reports for an HTTP status.
pub open spec fn error_label_text(status: u16) -> (Seq<char>, Seq<char>) {
    if status == 404 {
        ("Not Found"@, "The requested resource was not found"@)
    } else if status == 500 {
        ("Internal Server Error"@, "An unexpected error occurred"@)
    } else if status == 400 {
        ("Bad Request"@, "The request was invalid"@)
    } else {
        ("Error"@, "An error occurred"@)
    }
}

/// The short label and description for an HTTP status: not found, internal
/// server error and bad request each get their own pair, every other status
/// the default pair.
pub fn error_label(status: u16) -> (r: (&'static str, &'static str))
    ensures
        r.0@ == error_label_text(status).0,
        r.1@ == error_label_text(status).1,
{
    if status == 404 {
        ("Not Found", "The requested resource was not found")
    } else if status == 500 {
        ("Internal Server Error", "An unexpected error occurred")
    } else if status == 400 {
        ("Bad Request", "The request was invalid")
    } else {
        ("Error", "An error occurred")
    }
}

/// The generic JSON error body for a status: its label, its description and
/// the numeric status, in that order.
pub open spec fn error_envelope_text(status: u16) -> Seq<char> {
    "{\"error\":"@ + json_string(error_label_text(status).0) + ",\"message\":"@ + json_string(
        error_label_text(status).1,
    ) + ",\"status\":"@ + dec_digits(status as int) + "}"@
}

/// Builds the generic JSON error body for a status.
pub fn error_envelope(status: u16) -> (r: String)
    ensures
        r@ == error_envelope_text(status),
{
    let label = error_label(status);
    let mut r = String::from_str("{\"error\":");
    let encoded_label = encode_json_string(label.0);
    r.append(encoded_label.as_str());
    r.append(",\"message\":");
    let encoded_description = encode_json_string(label.1);
    r.append(encoded_description.as_str());
    r.append(",\"status\":");
    let digits = decimal(status);
    r.append(digits.as_str());
    r.append("}");
    proof {
        assert(r@ =~= error_envelope_text(status));
    }
    r
}

/// The plain JSON envelope of the non-streaming variant: a numeric status
/// and a message.
pub open spec fn generic_envelope_text(status: u16, message: Seq<char>) -> Seq<char> {
    "{\"status\":"@ + dec_digits(status as int) + ",\"message\":"@ + json_string(message) + "}"@
}

/// Builds the plain JSON envelope around a completion text.
pub fn generic_envelope(status: u16, message: &str) -> (r: String)
    ensures
        r@ == generic_envelope_text(status, message@),
{
    let mut r = String::from_str("{\"status\":");
    let digits = decimal(status);
    r.append(digits.as_str());
    r.append(",\"message\":");
    let encoded = encode_json_string(message);
    r.append(encoded.as_str());
    r.append("}");
    proof {
        assert(r@ =~= generic_envelope_text(status, message@));
    }
    r
}

/// The response headers of the event stream, in order: content type, cache
/// control, connection and the permissive origin.
pub fn sse_headers() -> (r: Vec<(&'static str, &'static str)>)
    ensures
        r@.len() == 4,
        r@[0].0@ == "Content-Type"@ && r@[0].1@ == "text/event-stream"@,
        r@[1].0@ == "Cache-Control"@ && r@[1].1@ == "no-cache"@,
        r@[2].0@ == "Connection"@ && r@[2].1@ == "keep-alive"@,
        r@[3].0@ == "Access-Control-Allow-Origin"@ && r@[3].1@ == "*"@,
{
    let mut r: Vec<(&'static str, &'static str)> = Vec::new();
    r.push(("Content-Type", "text/event-stream"));
    r.push(("Cache-Control", "no-cache"));
    r.push(("Connection", "keep-alive"));
    r.push(("Access-Control-Allow-Origin", "*"));
    r
}

} // verus!
