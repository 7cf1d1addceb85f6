use gemini_relay::discord_webhook::DiscordWebhookClient;
use gemini_relay::gemini_client::GeminiClient;
use gemini_relay::gemini_client::GeminiResponse;
use gemini_relay::gemini_client::GeminiResponseCandidate;
use gemini_relay::gemini_client::GeminiResponseContent;
use gemini_relay::gemini_client::GeminiResponsePart;
use gemini_relay::handler::Action;
use gemini_relay::handler::Event;
use gemini_relay::handler::GenerationOutcome;
use gemini_relay::handler::Handler;
use gemini_relay::handler::RequestData;
use gemini_relay::health_response;

fn sample_request() -> RequestData {
    RequestData {
        error_output: "NameError: name 'x' is not defined".to_string(),
        code: "print(x)".to_string(),
        language: "English".to_string(),
    }
}

fn sample_response() -> GeminiResponse {
    GeminiResponse {
        candidates: vec![GeminiResponseCandidate {
            content: GeminiResponseContent {
                parts: vec![GeminiResponsePart { text: "hi".to_string() }],
                role: "model".to_string(),
            },
            finish_reason: "STOP".to_string(),
        }],
    }
}

fn webhook_on() -> DiscordWebhookClient {
    DiscordWebhookClient::new(Some("https://example.invalid/hook".to_string()))
}

fn webhook_off() -> DiscordWebhookClient {
    DiscordWebhookClient::new(None)
}

fn gemini() -> GeminiClient {
    GeminiClient::new("test-key".to_string(), "gemini-exp-1121".to_string())
}

#[test]
fn scenario_success_without_webhook() {
    let (mut h, first) = Handler::begin(webhook_off(), gemini(), &sample_request());
    let Action::CountTokens { url, body } = first else {
        panic!("expected a count-tokens action");
    };
    assert_eq!(
        url,
        "https://generativelanguage.googleapis.com/v1beta/models/gemini-exp-1121:countTokens?key=test-key"
    );
    let cleaned = gemini_relay::clean_error_output("NameError: name 'x' is not defined");
    let prompt = gemini_relay::get_prompt("English", &cleaned, "print(x)");
    let expected_body = format!(
        "{{\"contents\":[{{\"parts\":[{{\"text\":{}}}]}}]}}",
        serde_json::to_string(&prompt).unwrap()
    );
    assert_eq!(body, expected_body);
    let next = h.step(Event::TokenCount(Ok(42)));
    let Action::GenerateContent { url, body: _ } = next else {
        panic!("expected a generate-content action");
    };
    assert_eq!(
        url,
        "https://generativelanguage.googleapis.com/v1beta/models/gemini-exp-1121:generateContent?key=test-key"
    );
    let last = h.step(Event::Generation(GenerationOutcome::Success(sample_response())));
    let Action::Respond { status, body } = last else {
        panic!("expected a response");
    };
    assert_eq!(status, 200);
    assert_eq!(
        body,
        "{\"candidates\":[{\"content\":{\"parts\":[{\"text\":\"hi\"}],\"role\":\"model\"},\"finishReason\":\"STOP\"}]}"
    );
}

#[test]
fn scenario_success_with_webhook_notifies_usage() {
    let (mut h, first) = Handler::begin(webhook_on(), gemini(), &sample_request());
    assert!(matches!(first, Action::CountTokens { .. }));
    let second = h.step(Event::TokenCount(Ok(42)));
    let Action::Notify { payload } = second else {
        panic!("expected a usage notification");
    };
    assert!(payload.contains("\"username\":\"Gemini Assistant Server Log\""));
    assert!(payload.contains("{\"name\":\"language\",\"value\":\"English\"}"));
    assert!(payload.contains("{\"name\":\"tokens\",\"value\":\"42\"}"));
    let third = h.step(Event::NotifySent(true));
    assert!(matches!(third, Action::GenerateContent { .. }));
    let last = h.step(Event::Generation(GenerationOutcome::Success(sample_response())));
    let Action::Respond { status, .. } = last else {
        panic!("expected a response");
    };
    assert_eq!(status, 200);
}

#[test]
fn scenario_transport_error_with_webhook() {
    let (mut h, _) = Handler::begin(webhook_on(), gemini(), &sample_request());
    let next = h.step(Event::TokenCount(Err("dns failure".to_string())));
    assert!(matches!(next, Action::GenerateContent { .. }));
    let mut notify_count = 0;
    let after_gen = h.step(Event::Generation(GenerationOutcome::TransportError(
        "connection refused".to_string(),
    )));
    let Action::Notify { payload } = after_gen else {
        panic!("expected a failure notification");
    };
    notify_count += 1;
    assert!(payload.contains("\"username\":\"Gemini Assistant Server Error Log\""));
    assert!(payload.contains("Result error: connection refused"));
    let last = h.step(Event::NotifySent(false));
    let Action::Respond { status, body } = last else {
        panic!("expected a response");
    };
    assert_eq!(notify_count, 1);
    assert_eq!(status, 500);
    assert_eq!(body, "{\"message\":\"Request error: connection refused\"}");
}

#[test]
fn scenario_transport_error_without_webhook() {
    let (mut h, _) = Handler::begin(webhook_off(), gemini(), &sample_request());
    let next = h.step(Event::TokenCount(Ok(7)));
    assert!(matches!(next, Action::GenerateContent { .. }));
    let last = h.step(Event::Generation(GenerationOutcome::TransportError(
        "timed out".to_string(),
    )));
    let Action::Respond { status, body } = last else {
        panic!("expected a response");
    };
    assert_eq!(status, 500);
    assert_eq!(body, "{\"message\":\"Request error: timed out\"}");
}

#[test]
fn scenario_upstream_error_surfaces_status_code() {
    let (mut h, _) = Handler::begin(webhook_off(), gemini(), &sample_request());
    let _ = h.step(Event::TokenCount(Err("decode error".to_string())));
    let last = h.step(Event::Generation(GenerationOutcome::UpstreamError {
        code: 429,
        status: "RESOURCE_EXHAUSTED".to_string(),
        message: "quota exceeded".to_string(),
    }));
    let Action::Respond { status, body } = last else {
        panic!("expected a response");
    };
    assert_eq!(status, 429);
    assert_eq!(
        body,
        "{\"message\":\"Request error: RESOURCE_EXHAUSTED: quota exceeded\"}"
    );
}

#[test]
fn disabled_webhook_never_notifies() {
    let (mut h, first) = Handler::begin(webhook_off(), gemini(), &sample_request());
    assert!(!matches!(first, Action::Notify { .. }));
    let a1 = h.step(Event::TokenCount(Ok(5)));
    assert!(!matches!(a1, Action::Notify { .. }));
    let a2 = h.step(Event::Generation(GenerationOutcome::TransportError(
        "down".to_string(),
    )));
    assert!(!matches!(a2, Action::Notify { .. }));
    assert!(matches!(a2, Action::Respond { .. }));
}

#[test]
fn korean_request_renders_korean_prompt() {
    let req = RequestData {
        error_output: "오류".to_string(),
        code: "print(1)".to_string(),
        language: "한국어".to_string(),
    };
    let (_h, first) = Handler::begin(webhook_off(), gemini(), &req);
    let Action::CountTokens { body, .. } = first else {
        panic!("expected a count-tokens action");
    };
    assert!(body.contains("Jupyter Notebook (.ipynb) 파일을"));
}

#[test]
fn liveness_check_fixed_payload() {
    let (status, body) = health_response();
    assert_eq!(status, 200);
    assert_eq!(body, "{\"status\":\"OK\"}");
}
