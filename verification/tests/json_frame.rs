use gemini_relay::gemini_client::prompt_request_body;
use gemini_relay::gemini_client::response_body;
use gemini_relay::gemini_client::GeminiResponse;
use gemini_relay::gemini_client::GeminiResponseCandidate;
use gemini_relay::gemini_client::GeminiResponseContent;
use gemini_relay::gemini_client::GeminiResponsePart;

#[test]
fn request_body_plain_prompt() {
    assert_eq!(
        prompt_request_body("hello"),
        "{\"contents\":[{\"parts\":[{\"text\":\"hello\"}]}]}"
    );
}

#[test]
fn request_body_escapes_specials() {
    assert_eq!(
        prompt_request_body("a\"b\\c\nd\te\rf"),
        "{\"contents\":[{\"parts\":[{\"text\":\"a\\\"b\\\\c\\nd\\te\\rf\"}]}]}"
    );
}

#[test]
fn request_body_escapes_control_chars() {
    assert_eq!(
        prompt_request_body("x\u{1}y\u{1f}z"),
        "{\"contents\":[{\"parts\":[{\"text\":\"x\\u0001y\\u001fz\"}]}]}"
    );
}

#[test]
fn request_body_matches_reference_serializer() {
    let prompt = "line1\nline2 \"quoted\" \\slash\\ 한국어 \u{8}\u{c}\u{b}\u{0}";
    let expected = format!(
        "{{\"contents\":[{{\"parts\":[{{\"text\":{}}}]}}]}}",
        serde_json::to_string(prompt).unwrap()
    );
    assert_eq!(prompt_request_body(prompt), expected);
}

#[test]
fn response_body_multiple_candidates_and_parts() {
    let resp = GeminiResponse {
        candidates: vec![
            GeminiResponseCandidate {
                content: GeminiResponseContent {
                    parts: vec![
                        GeminiResponsePart { text: "a".to_string() },
                        GeminiResponsePart { text: "b".to_string() },
                    ],
                    role: "model".to_string(),
                },
                finish_reason: "STOP".to_string(),
            },
            GeminiResponseCandidate {
                content: GeminiResponseContent {
                    parts: vec![GeminiResponsePart { text: "c".to_string() }],
                    role: "model".to_string(),
                },
                finish_reason: "MAX_TOKENS".to_string(),
            },
        ],
    };
    assert_eq!(
        response_body(&resp),
        "{\"candidates\":[{\"content\":{\"parts\":[{\"text\":\"a\"},{\"text\":\"b\"}],\"role\":\"model\"},\"finishReason\":\"STOP\"},{\"content\":{\"parts\":[{\"text\":\"c\"}],\"role\":\"model\"},\"finishReason\":\"MAX_TOKENS\"}]}"
    );
}

#[test]
fn response_body_no_candidates() {
    let resp = GeminiResponse { candidates: Vec::new() };
    assert_eq!(response_body(&resp), "{\"candidates\":[]}");
}
