use gemini_relay::discord_webhook::i32_to_string;
use gemini_relay::discord_webhook::message_payload;
use gemini_relay::discord_webhook::truncate_content;
use gemini_relay::discord_webhook::DiscordWebhookClient;
use gemini_relay::discord_webhook::DiscordWebhookEmbed;
use gemini_relay::discord_webhook::DiscordWebhookField;
use gemini_relay::discord_webhook::DiscordWebhookMessage;

#[test]
fn truncation_cuts_long_content_to_2000_chars() {
    let long: String = "x".repeat(2500);
    let cut = truncate_content(&long);
    assert_eq!(cut.chars().count(), 2000);
    assert_eq!(cut, "x".repeat(2000));
}

#[test]
fn truncation_keeps_short_content() {
    assert_eq!(truncate_content("short"), "short");
}

#[test]
fn truncation_keeps_content_of_exactly_2000_chars() {
    let exact: String = "y".repeat(2000);
    assert_eq!(truncate_content(&exact), exact);
}

#[test]
fn truncation_counts_characters_not_bytes() {
    // 2001 three-byte characters: the cut keeps the first 2000 characters.
    let long: String = "한".repeat(2001);
    let cut = truncate_content(&long);
    assert_eq!(cut.chars().count(), 2000);
    assert_eq!(cut, "한".repeat(2000));
}

#[test]
fn decimal_rendering_exact() {
    assert_eq!(i32_to_string(0), "0");
    assert_eq!(i32_to_string(7), "7");
    assert_eq!(i32_to_string(12345), "12345");
    assert_eq!(i32_to_string(-42), "-42");
    assert_eq!(i32_to_string(i32::MAX), "2147483647");
    assert_eq!(i32_to_string(i32::MIN), "-2147483648");
}

#[test]
fn disabled_webhook_builds_nothing() {
    let client = DiscordWebhookClient::new(None);
    assert!(client.build_message("user", "content", Vec::new()).is_none());
    assert!(client.build_error_log("boom").is_none());
    assert!(client.build_token_info("English", 3, "err").is_none());
}

#[test]
fn message_content_is_truncated() {
    let client = DiscordWebhookClient::new(Some("https://example.invalid/hook".to_string()));
    let long: String = "z".repeat(2300);
    let m = client.build_message("user", &long, Vec::new()).unwrap();
    assert_eq!(m.content, "z".repeat(2000));
    assert_eq!(m.username, "user");
}

#[test]
fn error_log_message_shape() {
    let client = DiscordWebhookClient::new(Some("https://example.invalid/hook".to_string()));
    let m = client.build_error_log("Result error: timed out").unwrap();
    assert_eq!(m.username, "Gemini Assistant Server Error Log");
    assert_eq!(m.content, "🚨 **ERROR** 🚨\n```Result error: timed out```");
    assert!(m.embeds.is_empty());
}

#[test]
fn token_info_message_shape() {
    let client = DiscordWebhookClient::new(Some("https://example.invalid/hook".to_string()));
    let m = client.build_token_info("English", 321, "clean error").unwrap();
    assert_eq!(m.username, "Gemini Assistant Server Log");
    assert_eq!(m.content, "clean error");
    assert_eq!(m.embeds.len(), 1);
    let fields = &m.embeds[0].fields;
    assert_eq!(fields.len(), 2);
    assert_eq!(fields[0].name, "language");
    assert_eq!(fields[0].value, "English");
    assert_eq!(fields[1].name, "tokens");
    assert_eq!(fields[1].value, "321");
}

#[test]
fn message_payload_json_exact() {
    let m = DiscordWebhookMessage {
        username: "bot".to_string(),
        content: "hello \"world\"\nline".to_string(),
        embeds: vec![DiscordWebhookEmbed {
            fields: vec![
                DiscordWebhookField { name: "language".to_string(), value: "English".to_string() },
                DiscordWebhookField { name: "tokens".to_string(), value: "9".to_string() },
            ],
        }],
    };
    let payload = message_payload(&m);
    assert_eq!(
        payload,
        "{\"username\":\"bot\",\"content\":\"hello \\\"world\\\"\\nline\",\"embeds\":[{\"fields\":[{\"name\":\"language\",\"value\":\"English\"},{\"name\":\"tokens\",\"value\":\"9\"}]}]}"
    );
}

#[test]
fn message_payload_empty_embeds() {
    let m = DiscordWebhookMessage {
        username: "bot".to_string(),
        content: "c".to_string(),
        embeds: Vec::new(),
    };
    assert_eq!(
        message_payload(&m),
        "{\"username\":\"bot\",\"content\":\"c\",\"embeds\":[]}"
    );
}
