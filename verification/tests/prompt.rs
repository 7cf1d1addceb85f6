use gemini_relay::get_prompt;
use gemini_relay::prompt::ENG_HEAD;
use gemini_relay::prompt::ENG_MID;
use gemini_relay::prompt::ENG_TAIL;
use gemini_relay::prompt::KOR_HEAD;
use gemini_relay::prompt::KOR_MID;
use gemini_relay::prompt::KOR_TAIL;

#[test]
fn prompt_english_template_exact() {
    let rendered = get_prompt("English", "the error", "the code");
    let expected = format!("{}the error{}the code{}", ENG_HEAD, ENG_MID, ENG_TAIL);
    assert_eq!(rendered, expected);
}

#[test]
fn prompt_korean_template_exact() {
    let rendered = get_prompt("한국어", "오류 메시지", "print(x)");
    let expected = format!("{}오류 메시지{}print(x){}", KOR_HEAD, KOR_MID, KOR_TAIL);
    assert_eq!(rendered, expected);
}

#[test]
fn prompt_unknown_language_falls_back_to_english() {
    let rendered = get_prompt("Deutsch", "err", "code");
    let expected = format!("{}err{}code{}", ENG_HEAD, ENG_MID, ENG_TAIL);
    assert_eq!(rendered, expected);
}

#[test]
fn prompt_empty_language_falls_back_to_english() {
    let rendered = get_prompt("", "err", "code");
    assert!(rendered.starts_with(ENG_HEAD));
}

#[test]
fn prompt_near_korean_token_is_not_korean() {
    // Only the exact token selects the Korean template.
    let rendered = get_prompt("한국어 ", "err", "code");
    assert!(rendered.starts_with(ENG_HEAD));
}

#[test]
fn prompt_is_deterministic() {
    let a = get_prompt("English", "some error", "some code");
    let b = get_prompt("English", "some error", "some code");
    assert_eq!(a, b);
}

#[test]
fn prompt_contains_inputs_verbatim() {
    let rendered = get_prompt("English", "ZeroDivisionError: division by zero", "1 / 0");
    assert!(rendered.contains("ZeroDivisionError: division by zero"));
    assert!(rendered.contains("1 / 0"));
}
