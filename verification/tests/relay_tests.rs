use completion_relay::config::missing_message;
use completion_relay::config::MissingCredential;
use completion_relay::config::RelayConfig;
use completion_relay::edge::error_envelope;
use completion_relay::edge::error_label;
use completion_relay::edge::generic_envelope;
use completion_relay::edge::sse_headers;
use completion_relay::frame::sse_body;
use completion_relay::request::auth_header_value;
use completion_relay::request::completion_url;
use completion_relay::request::default_prompt;
use completion_relay::request::plan_request;
use completion_relay::request::prompt_payload;
use completion_relay::request::RelayPlan;
use completion_relay::text::decimal;
use completion_relay::text::encode_json_string;

fn config(account_id: Option<&str>, api_token: Option<&str>) -> RelayConfig {
    RelayConfig {
        account_id: account_id.map(|s| s.to_string()),
        api_token: api_token.map(|s| s.to_string()),
    }
}

#[test]
fn resolve_yields_credentials_when_both_present() {
    let c = config(Some("acct-1"), Some("tok-9")).resolve().expect("both configured");
    assert_eq!(c.account_id, "acct-1");
    assert_eq!(c.api_token, "tok-9");
}

#[test]
fn resolve_reports_the_account_id_first() {
    assert_eq!(
        config(None, None).resolve().unwrap_err(),
        MissingCredential::AccountId
    );
    assert_eq!(
        config(None, Some("tok")).resolve().unwrap_err(),
        MissingCredential::AccountId
    );
    assert_eq!(
        config(Some("acct"), None).resolve().unwrap_err(),
        MissingCredential::ApiToken
    );
}

#[test]
fn missing_messages_name_the_variable() {
    assert_eq!(
        missing_message(MissingCredential::AccountId),
        "Error: CLOUDFLARE_ACCOUNT_ID environment variable not set"
    );
    assert_eq!(
        missing_message(MissingCredential::ApiToken),
        "Error: CLOUDFLARE_API_TOKEN environment variable not set"
    );
}

#[test]
fn missing_account_id_short_circuits_without_a_request() {
    match plan_request(&config(None, Some("tok")), default_prompt()) {
        RelayPlan::Degraded(m) => {
            assert_eq!(m, "Error: CLOUDFLARE_ACCOUNT_ID environment variable not set");
        }
        RelayPlan::Fetch(_) => panic!("a request was constructed despite the missing account id"),
    }
}

#[test]
fn missing_token_degrades_to_a_well_formed_event_stream() {
    let body = match plan_request(&config(Some("acct"), None), default_prompt()) {
        RelayPlan::Degraded(m) => sse_body(&m),
        RelayPlan::Fetch(_) => panic!("a request was constructed despite the missing token"),
    };
    assert_eq!(
        body,
        "data: Error: CLOUDFLARE_API_TOKEN environment\n\ndata: variable not set\n\ndata: [DONE]\n\n"
    );
}

#[test]
fn builds_the_one_upstream_request() {
    match plan_request(&config(Some("acct-1"), Some("tok-9")), default_prompt()) {
        RelayPlan::Fetch(req) => {
            assert_eq!(
                req.url,
                "https://api.cloudflare.com/client/v4/accounts/acct-1/ai/run/@cf/meta/llama-3.1-8b-instruct"
            );
            assert_eq!(req.auth_header, "Bearer tok-9");
            assert_eq!(
                req.body,
                "{\"prompt\":\"Where did the phrase Hello World come from\"}"
            );
        }
        RelayPlan::Degraded(m) => panic!("unexpected degradation: {}", m),
    }
}

#[test]
fn completion_url_substitutes_the_account() {
    assert_eq!(
        completion_url("abc"),
        "https://api.cloudflare.com/client/v4/accounts/abc/ai/run/@cf/meta/llama-3.1-8b-instruct"
    );
}

#[test]
fn auth_header_carries_the_bearer_token() {
    assert_eq!(auth_header_value("secret"), "Bearer secret");
}

#[test]
fn payload_escapes_the_prompt() {
    assert_eq!(
        prompt_payload("say \"hi\"\nwith a \\ backslash"),
        "{\"prompt\":\"say \\\"hi\\\"\\nwith a \\\\ backslash\"}"
    );
}

#[test]
fn payload_parses_back_to_the_prompt() {
    let prompt = "quote \" backslash \\ newline \n tab \t return \r bell \u{7} end";
    let payload = prompt_payload(prompt);
    let parsed: serde_json::Value = serde_json::from_str(&payload).expect("valid JSON");
    assert_eq!(parsed.get("prompt").and_then(|v| v.as_str()), Some(prompt));
}

#[test]
fn json_string_encoding_is_exact() {
    assert_eq!(encode_json_string("plain"), "\"plain\"");
    assert_eq!(encode_json_string("a\"b"), "\"a\\\"b\"");
    assert_eq!(encode_json_string("a\u{1}b"), "\"a\\u0001b\"");
    assert_eq!(encode_json_string(""), "\"\"");
}

#[test]
fn decimal_renders_every_width() {
    assert_eq!(decimal(0), "0");
    assert_eq!(decimal(7), "7");
    assert_eq!(decimal(200), "200");
    assert_eq!(decimal(65535), "65535");
}

#[test]
fn error_labels_match_the_translator() {
    assert_eq!(
        error_label(404),
        ("Not Found", "The requested resource was not found")
    );
    assert_eq!(
        error_label(500),
        ("Internal Server Error", "An unexpected error occurred")
    );
    assert_eq!(error_label(400), ("Bad Request", "The request was invalid"));
    assert_eq!(error_label(503), ("Error", "An error occurred"));
}

#[test]
fn error_envelope_is_the_exact_json_body() {
    assert_eq!(
        error_envelope(404),
        "{\"error\":\"Not Found\",\"message\":\"The requested resource was not found\",\"status\":404}"
    );
    let parsed: serde_json::Value =
        serde_json::from_str(&error_envelope(500)).expect("valid JSON");
    assert_eq!(
        parsed.get("error").and_then(|v| v.as_str()),
        Some("Internal Server Error")
    );
    assert_eq!(parsed.get("status").and_then(|v| v.as_u64()), Some(500));
}

#[test]
fn generic_envelope_wraps_a_message() {
    assert_eq!(
        generic_envelope(200, "You reached a GET route!"),
        "{\"status\":200,\"message\":\"You reached a GET route!\"}"
    );
}

#[test]
fn sse_headers_are_the_four_stream_headers() {
    assert_eq!(
        sse_headers(),
        vec![
            ("Content-Type", "text/event-stream"),
            ("Cache-Control", "no-cache"),
            ("Connection", "keep-alive"),
            ("Access-Control-Allow-Origin", "*"),
        ]
    );
}

#[test]
fn default_prompt_is_the_fixed_demo_prompt() {
    assert_eq!(default_prompt(), "Where did the phrase Hello World come from");
}
