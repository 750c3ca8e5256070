use completion_relay::frame::frames;
use completion_relay::frame::sentinel_frame;
use completion_relay::frame::sse_body;
use completion_relay::frame::tokenize;

#[test]
fn empty_text_frames_as_sentinel_alone() {
    assert_eq!(frames(""), vec!["data: [DONE]\n\n".to_string()]);
}

#[test]
fn whitespace_only_frames_as_sentinel_alone() {
    assert_eq!(frames(" \t\r\n  "), vec!["data: [DONE]\n\n".to_string()]);
}

#[test]
fn single_word_gets_one_content_frame() {
    assert_eq!(
        frames("hello"),
        vec!["data: hello\n\n".to_string(), "data: [DONE]\n\n".to_string()]
    );
}

#[test]
fn groups_tokens_three_to_a_frame() {
    assert_eq!(
        frames("one two three four"),
        vec![
            "data: one two three\n\n".to_string(),
            "data: four\n\n".to_string(),
            "data: [DONE]\n\n".to_string(),
        ]
    );
}

#[test]
fn exact_multiple_of_three_has_no_short_frame() {
    assert_eq!(
        frames("a b c d e f"),
        vec![
            "data: a b c\n\n".to_string(),
            "data: d e f\n\n".to_string(),
            "data: [DONE]\n\n".to_string(),
        ]
    );
}

#[test]
fn collapses_runs_of_whitespace() {
    assert_eq!(
        frames("a\n\n  b\tc   d"),
        vec![
            "data: a b c\n\n".to_string(),
            "data: d\n\n".to_string(),
            "data: [DONE]\n\n".to_string(),
        ]
    );
}

#[test]
fn frame_count_is_ceiling_of_thirds_plus_sentinel() {
    for word_count in 0..20usize {
        let text = vec!["w"; word_count].join(" ");
        let fs = frames(&text);
        assert_eq!(fs.len(), (word_count + 2) / 3 + 1);
        assert_eq!(fs.last().unwrap(), "data: [DONE]\n\n");
    }
}

#[test]
fn content_frames_reproduce_the_token_sequence() {
    let text = "alpha beta gamma delta epsilon zeta eta";
    let original: Vec<String> = tokenize(text);
    let fs = frames(text);
    let mut recovered: Vec<String> = Vec::new();
    for frame in &fs[..fs.len() - 1] {
        let payload = frame
            .strip_prefix("data: ")
            .and_then(|rest| rest.strip_suffix("\n\n"))
            .expect("a well-formed frame");
        for token in payload.split_whitespace() {
            recovered.push(token.to_string());
        }
    }
    assert_eq!(recovered, original);
}

#[test]
fn tokenize_splits_on_whitespace() {
    assert_eq!(
        tokenize("  lead mid\ttrail  "),
        vec!["lead".to_string(), "mid".to_string(), "trail".to_string()]
    );
    assert_eq!(tokenize(""), Vec::<String>::new());
}

#[test]
fn splits_on_every_unicode_whitespace_character() {
    let text = "a\u{00A0}b\u{2003}c\u{000B}d\u{000C}e\u{0085}f\u{3000}g\u{2028}h";
    let expected: Vec<String> = text.split_whitespace().map(|t| t.to_string()).collect();
    assert_eq!(tokenize(text), expected);
    assert_eq!(
        tokenize(text),
        vec!["a", "b", "c", "d", "e", "f", "g", "h"]
            .into_iter()
            .map(|t| t.to_string())
            .collect::<Vec<String>>()
    );
}

#[test]
fn framing_depends_only_on_the_token_sequence() {
    assert_eq!(sse_body("a\u{00A0} b"), sse_body("a b"));
    assert_eq!(sse_body("a\u{205F}\u{1680}b \t c"), sse_body("a b c"));
}

#[test]
fn sse_body_concatenates_frames_in_order() {
    assert_eq!(
        sse_body("hello world"),
        "data: hello world\n\ndata: [DONE]\n\n"
    );
    assert_eq!(sse_body(""), "data: [DONE]\n\n");
}

#[test]
fn sentinel_frame_is_the_done_record() {
    assert_eq!(sentinel_frame(), "data: [DONE]\n\n");
}
