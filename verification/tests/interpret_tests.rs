use completion_relay::interpret::interpret;

#[test]
fn extracts_structured_reply() {
    assert_eq!(interpret(200, "{\"result\":{\"response\":\"hi\"}}"), "hi");
}

#[test]
fn serializes_partial_result() {
    assert_eq!(
        interpret(200, "{\"result\":{\"foo\":1}}"),
        "AI Response: {\"foo\":1}"
    );
}

#[test]
fn passes_non_json_through() {
    assert_eq!(interpret(200, "not json"), "not json");
}

#[test]
fn describes_failed_status() {
    assert_eq!(
        interpret(500, "boom"),
        "API request failed with status 500: boom"
    );
}

#[test]
fn serializes_whole_document_without_result() {
    assert_eq!(
        interpret(200, "{\"ok\":true}"),
        "Full API Response: {\"ok\":true}"
    );
}

#[test]
fn non_success_status_keeps_body_verbatim() {
    assert_eq!(
        interpret(404, "{\"result\":{\"response\":\"hi\"}}"),
        "API request failed with status 404: {\"result\":{\"response\":\"hi\"}}"
    );
}

#[test]
fn result_response_must_be_a_string() {
    assert_eq!(
        interpret(200, "{\"result\":{\"response\":5}}"),
        "AI Response: {\"response\":5}"
    );
}

#[test]
fn empty_body_is_not_json() {
    assert_eq!(interpret(200, ""), "");
}

#[test]
fn result_of_plain_string_shape() {
    assert_eq!(
        interpret(200, "{\"result\":\"done\"}"),
        "AI Response: \"done\""
    );
}
