//! Interpretation of the upstream response: a total function with a layered
//! fallback policy, so that no response shape — non-success status, schema
//! drift, or a body that is not JSON at all — ever raises an error.

use vstd::prelude::*;
use vstd::string::StringExecFns;
use crate::text::dec_digits;

verus! {

/// How the response body classifies under the upstream schema, from most to
/// least specific: a string at `result.response`; a `result` field of some
/// other shape, carried as its serialization; a JSON document without
/// `result`, carried whole as its serialization; or text that is not JSON.
pub enum BodyClass {
    StructuredReply(String),
    PartialResult(String),
    WholeDocument(String),
    RawBody,
}

/// The mathematical image of a classification.
pub enum ClassView {
    StructuredReply(Seq<char>),
    PartialResult(Seq<char>),
    WholeDocument(Seq<char>),
    RawBody,
}

impl View for BodyClass {
    type V = ClassView;

    open spec fn view(&self) -> ClassView {
        match self {
            BodyClass::StructuredReply(t) => ClassView::StructuredReply(t@),
            BodyClass::PartialResult(s) => ClassView::PartialResult(s@),
            BodyClass::WholeDocument(s) => ClassView::WholeDocument(s@),
            BodyClass::RawBody => ClassView::RawBody,
        }
    }
}

/// How a body text classifies. JSON parsing and compact serialization are
/// deterministic, so the classification is a function of the body alone; its
/// value is known only through `classify_body`.
pub uninterp spec fn classify_of(body: Seq<char>) -> ClassView;

/// Relies on serde_json: `from_str` parses the body as a JSON document,
/// `Value::get` looks up an object field, `Value::as_str` tells a JSON string
/// from any other value, and `Value`'s `to_string` writes the compact
/// serialization. Parsing and serialization depend on the body text alone.
#[verifier::external_body]
fn classify_body(body: &str) -> (r: BodyClass)
    ensures
        r@ == classify_of(body@),
{
    match serde_json::from_str::<serde_json::Value>(body) {
        Err(_) => BodyClass::RawBody,
        Ok(document) => match document.get("result") {
            None => BodyClass::WholeDocument(document.to_string()),
            Some(result) => match result.get("response") {
                Some(response) => match response.as_str() {
                    Some(reply) => BodyClass::StructuredReply(reply.to_string()),
                    None => BodyClass::PartialResult(result.to_string()),
                },
                None => BodyClass::PartialResult(result.to_string()),
            },
        },
    }
}

/// The completion text owed for a response with the given status and body
/// classification: the failure description for a non-success status, and the
/// layered fallbacks otherwise.
pub open spec fn interpreted_class(status: u16, body: Seq<char>, class: ClassView) -> Seq<char> {
    if status != 200 {
        "API request failed with status "@ + dec_digits(status as int) + ": "@ + body
    } else {
        match class {
            ClassView::StructuredReply(t) => t,
            ClassView::PartialResult(s) => "AI Response: "@ + s,
            ClassView::WholeDocument(s) => "Full API Response: "@ + s,
            ClassView::RawBody => body,
        }
    }
}

/// The completion text owed for a raw upstream response.
pub open spec fn interpreted(status: u16, body: Seq<char>) -> Seq<char> {
    interpreted_class(status, body, classify_of(body))
}

/// Law: a non-success status always yields a non-empty completion text, so
/// the failure is visible as stream content.
pub proof fn lemma_failure_text_nonempty(status: u16, body: Seq<char>)
    requires
        status != 200,
    ensures
        interpreted(status, body).len() > 0,
{
    reveal_strlit("API request failed with status ");
}

/// Builds the completion text for one classified body. Total: every status
/// and classification yields a text.
pub fn render_class(status: u16, body: &str, class: BodyClass) -> (r: String)
    ensures
        r@ == interpreted_class(status, body@, class@),
{
    if status != 200 {
        let mut r = String::from_str("API request failed with status ");
        let digits = crate::text::decimal(status);
        r.append(digits.as_str());
        r.append(": ");
        r.append(body);
        proof {
            assert(r@ =~= interpreted_class(status, body@, class@));
        }
        r
    } else {
        match class {
            BodyClass::StructuredReply(t) => t,
            BodyClass::PartialResult(s) => {
                let mut r = String::from_str("AI Response: ");
                r.append(s.as_str());
                r
            },
            BodyClass::WholeDocument(s) => {
                let mut r = String::from_str("Full API Response: ");
                r.append(s.as_str());
                r
            },
            BodyClass::RawBody => String::from_str(body),
        }
    }
}

/// Interprets one upstream response: a deterministic, total function of the
/// status code and body with no failure case. A non-success status yields the
/// failure description; a success status yields the string at
/// `result.response` when present, else the serialized `result` field, else
/// the serialized document, else the body verbatim.
pub fn interpret(status: u16, body: &str) -> (r: String)
    ensures
        r@ == interpreted(status, body@),
{
    let class = classify_body(body);
    render_class(status, body, class)
}

} // verus!
