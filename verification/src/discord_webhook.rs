//! The notification client's verifiable half: the payload of a webhook
//! notification, the message-length truncation, the two fixed notification
//! shapes (error log and usage telemetry), and the JSON body transmitted.
//! The POST itself happens outside the library; when no webhook URL is
//! configured every builder yields nothing and no call is to be made.

use vstd::prelude::*;

use crate::chars::push_str_chars;
use crate::chars::string_from_chars;
use crate::json::json_string;
use crate::json::push_json_string;

verus! {

/// A name/value field of a webhook embed.
pub struct DiscordWebhookField {
    pub name: String,
    pub value: String,
}

/// One embed of a webhook message: its fields.
pub struct DiscordWebhookEmbed {
    pub fields: Vec<DiscordWebhookField>,
}

/// The payload of one webhook notification.
pub struct DiscordWebhookMessage {
    pub username: String,
    pub content: String,
    pub embeds: Vec<DiscordWebhookEmbed>,
}

/// The chat platform's message-length limit, in characters.
pub const MAX_CONTENT_LEN: usize = 2000;

/// `content` cut to the message-length limit.
pub open spec fn truncated_content(content: Seq<char>) -> Seq<char> {
    if content.len() > MAX_CONTENT_LEN {
        content.subrange(0, MAX_CONTENT_LEN as int)
    } else {
        content
    }
}

/// Cuts `content` to at most the message-length limit, counted in
/// characters: longer content keeps exactly its first 2000 characters,
/// shorter content is unchanged.
pub fn truncate_content(content: &str) -> (r: String)
    ensures
        r@ == truncated_content(content@),
{
    let n = content.unicode_len();
    if n > MAX_CONTENT_LEN {
        let t = content.substring_char(0, MAX_CONTENT_LEN);
        t.to_owned()
    } else {
        content.to_owned()
    }
}

// ---------------------------------------------------------------------------
// Decimal rendering of the token count
// ---------------------------------------------------------------------------

/// The decimal digit character for `n`.
pub open spec fn dec_digit(n: int) -> char {
    if n == 0 {
        '0'
    } else if n == 1 {
        '1'
    } else if n == 2 {
        '2'
    } else if n == 3 {
        '3'
    } else if n == 4 {
        '4'
    } else if n == 5 {
        '5'
    } else if n == 6 {
        '6'
    } else if n == 7 {
        '7'
    } else if n == 8 {
        '8'
    } else {
        '9'
    }
}

/// The decimal digits of `n`, most significant first.
pub open spec fn dec_nat(n: nat) -> Seq<char>
    decreases n,
{
    if n < 10 {
        seq![dec_digit(n as int)]
    } else {
        dec_nat(n / 10) + seq![dec_digit((n % 10) as int)]
    }
}

/// The decimal rendering of `n`, with a leading minus when negative.
pub open spec fn dec_int(n: int) -> Seq<char> {
    if n < 0 {
        seq!['-'] + dec_nat((-n) as nat)
    } else {
        dec_nat(n as nat)
    }
}

fn dec_digit_char(n: u32) -> (r: char)
    requires
        n < 10,
    ensures
        r == dec_digit(n as int),
{
    if n == 0 {
        '0'
    } else if n == 1 {
        '1'
    } else if n == 2 {
        '2'
    } else if n == 3 {
        '3'
    } else if n == 4 {
        '4'
    } else if n == 5 {
        '5'
    } else if n == 6 {
        '6'
    } else if n == 7 {
        '7'
    } else if n == 8 {
        '8'
    } else {
        '9'
    }
}

fn push_dec_u32(out: &mut Vec<char>, m: u32)
    ensures
        final(out)@ == old(out)@ + dec_nat(m as nat),
    decreases m,
{
    if m >= 10 {
        push_dec_u32(out, m / 10);
    }
    out.push(dec_digit_char(m % 10));
    proof {
        if m < 10 {
            assert(m % 10 == m);
            assert(out@ =~= old(out)@ + dec_nat(m as nat));
        } else {
            assert(out@ =~= old(out)@ + dec_nat(m as nat));
        }
    }
}

/// Renders `n` in decimal, as its string representation.
pub fn i32_to_string(n: i32) -> (r: String)
    ensures
        r@ == dec_int(n as int),
{
    let mut out: Vec<char> = Vec::new();
    if n < 0 {
        out.push('-');
        let m: u32 = (-(n as i64)) as u32;
        push_dec_u32(&mut out, m);
        proof {
            assert(out@ =~= dec_int(n as int));
        }
    } else {
        let m: u32 = n as u32;
        push_dec_u32(&mut out, m);
        proof {
            assert(out@ =~= dec_int(n as int));
        }
    }
    string_from_chars(&out)
}

// ---------------------------------------------------------------------------
// The client and the notification shapes
// ---------------------------------------------------------------------------

/// The notification client: holds the optional webhook destination. With no
/// URL configured, every notification is a silent no-op.
pub struct DiscordWebhookClient {
    pub web_hook_url: Option<String>,
}

/// Content of an error-log notification: the error wrapped in a code block
/// under a warning marker.
pub open spec fn error_log_content(error: Seq<char>) -> Seq<char> {
    "🚨 **ERROR** 🚨\n```"@ + error + "```"@
}

impl DiscordWebhookClient {
    pub fn new(web_hook_url: Option<String>) -> (r: Self)
        ensures
            r.web_hook_url == web_hook_url,
    {
        DiscordWebhookClient { web_hook_url }
    }

    /// Whether notifications are sent at all.
    pub open spec fn enabled_spec(&self) -> bool {
        self.web_hook_url is Some
    }

    pub fn enabled(&self) -> (r: bool)
        ensures
            r == self.enabled_spec(),
    {
        self.web_hook_url.is_some()
    }

    /// The message a notification would transmit: the content truncated to
    /// the message-length limit. Yields nothing when no URL is configured.
    pub fn build_message(
        &self,
        username: &str,
        content: &str,
        embeds: Vec<DiscordWebhookEmbed>,
    ) -> (r: Option<DiscordWebhookMessage>)
        ensures
            r is Some <==> self.enabled_spec(),
            r matches Some(m) ==> m.username@ == username@ && m.content@ == truncated_content(
                content@,
            ) && m.embeds == embeds,
    {
        if self.web_hook_url.is_some() {
            Some(
                DiscordWebhookMessage {
                    username: username.to_owned(),
                    content: truncate_content(content),
                    embeds,
                },
            )
        } else {
            None
        }
    }

    /// The error-log notification: a fixed username, the error wrapped in a
    /// code block under a warning marker, no embeds.
    pub fn build_error_log(&self, error: &str) -> (r: Option<DiscordWebhookMessage>)
        ensures
            r is Some <==> self.enabled_spec(),
            r matches Some(m) ==> m.username@ == "Gemini Assistant Server Error Log"@
                && m.content@ == truncated_content(error_log_content(error@)) && m.embeds@.len()
                == 0,
    {
        let mut content = String::new();
        content.append("🚨 **ERROR** 🚨\n```");
        content.append(error);
        content.append("```");
        proof {
            assert(content@ =~= error_log_content(error@));
        }
        self.build_message("Gemini Assistant Server Error Log", content.as_str(), Vec::new())
    }

    /// The usage notification: a fixed username, the sanitized error output
    /// as content, and one embed carrying the language and the token count.
    pub fn build_token_info(
        &self,
        language: &str,
        total_tokens: i32,
        cleaned_error_output: &str,
    ) -> (r: Option<DiscordWebhookMessage>)
        ensures
            r is Some <==> self.enabled_spec(),
            r matches Some(m) ==> {
                &&& m.username@ == "Gemini Assistant Server Log"@
                &&& m.content@ == truncated_content(cleaned_error_output@)
                &&& m.embeds@.len() == 1
                &&& m.embeds@[0].fields@.len() == 2
                &&& m.embeds@[0].fields@[0].name@ == "language"@
                &&& m.embeds@[0].fields@[0].value@ == language@
                &&& m.embeds@[0].fields@[1].name@ == "tokens"@
                &&& m.embeds@[0].fields@[1].value@ == dec_int(total_tokens as int)
            },
    {
        let mut fields: Vec<DiscordWebhookField> = Vec::new();
        fields.push(
            DiscordWebhookField { name: "language".to_owned(), value: language.to_owned() },
        );
        fields.push(
            DiscordWebhookField { name: "tokens".to_owned(), value: i32_to_string(total_tokens) },
        );
        let mut embeds: Vec<DiscordWebhookEmbed> = Vec::new();
        embeds.push(DiscordWebhookEmbed { fields });
        self.build_message("Gemini Assistant Server Log", cleaned_error_output, embeds)
    }
}

// ---------------------------------------------------------------------------
// Payload framing
// ---------------------------------------------------------------------------

/// JSON of one embed field.
pub open spec fn field_json(f: DiscordWebhookField) -> Seq<char> {
    "{\"name\":"@ + json_string(f.name@) + ",\"value\":"@ + json_string(f.value@) + "}"@
}

/// JSON of a list of embed fields, comma separated.
pub open spec fn fields_json(fs: Seq<DiscordWebhookField>) -> Seq<char>
    decreases fs.len(),
{
    if fs.len() == 0 {
        Seq::empty()
    } else if fs.len() == 1 {
        field_json(fs[0])
    } else {
        field_json(fs[0]) + seq![','] + fields_json(fs.drop_first())
    }
}

/// JSON of one embed.
pub open spec fn embed_json(e: DiscordWebhookEmbed) -> Seq<char> {
    "{\"fields\":["@ + fields_json(e.fields@) + "]}"@
}

/// JSON of a list of embeds, comma separated.
pub open spec fn embeds_json(es: Seq<DiscordWebhookEmbed>) -> Seq<char>
    decreases es.len(),
{
    if es.len() == 0 {
        Seq::empty()
    } else if es.len() == 1 {
        embed_json(es[0])
    } else {
        embed_json(es[0]) + seq![','] + embeds_json(es.drop_first())
    }
}

/// JSON of a webhook message with the given username, content and
/// embed-list text.
pub open spec fn message_json_of(
    username: Seq<char>,
    content: Seq<char>,
    embeds_inner: Seq<char>,
) -> Seq<char> {
    "{\"username\":"@ + json_string(username) + ",\"content\":"@ + json_string(content)
        + ",\"embeds\":["@ + embeds_inner + "]}"@
}

/// The JSON body POSTed to the webhook for message `m`.
pub open spec fn message_json(m: DiscordWebhookMessage) -> Seq<char> {
    message_json_of(m.username@, m.content@, embeds_json(m.embeds@))
}

fn push_field(out: &mut Vec<char>, f: &DiscordWebhookField)
    ensures
        final(out)@ == old(out)@ + field_json(*f),
{
    push_str_chars(out, "{\"name\":");
    push_json_string(out, f.name.as_str());
    push_str_chars(out, ",\"value\":");
    push_json_string(out, f.value.as_str());
    push_str_chars(out, "}");
    proof {
        assert(out@ =~= old(out)@ + field_json(*f));
    }
}

fn push_fields(out: &mut Vec<char>, fs: &Vec<DiscordWebhookField>, i: usize)
    requires
        i <= fs@.len(),
    ensures
        final(out)@ == old(out)@ + fields_json(fs@.subrange(i as int, fs@.len() as int)),
    decreases fs@.len() - i,
{
    let ghost sub = fs@.subrange(i as int, fs@.len() as int);
    if i < fs.len() {
        let f: &DiscordWebhookField = &fs[i];
        push_field(out, f);
        if i + 1 < fs.len() {
            out.push(',');
        }
        push_fields(out, fs, i + 1);
        proof {
            assert(sub[0] == fs@[i as int]);
            assert(sub.drop_first() =~= fs@.subrange(i + 1, fs@.len() as int));
            if i + 1 < fs@.len() {
                assert(out@ =~= old(out)@ + fields_json(sub));
            } else {
                assert(fs@.subrange(i + 1, fs@.len() as int).len() == 0);
                assert(out@ =~= old(out)@ + fields_json(sub));
            }
        }
    } else {
        proof {
            assert(sub.len() == 0);
            assert(out@ =~= old(out)@ + fields_json(sub));
        }
    }
}

fn push_embed(out: &mut Vec<char>, e: &DiscordWebhookEmbed)
    ensures
        final(out)@ == old(out)@ + embed_json(*e),
{
    push_str_chars(out, "{\"fields\":[");
    push_fields(out, &e.fields, 0);
    push_str_chars(out, "]}");
    proof {
        assert(e.fields@.subrange(0, e.fields@.len() as int) =~= e.fields@);
        assert(out@ =~= old(out)@ + embed_json(*e));
    }
}

fn push_embeds(out: &mut Vec<char>, es: &Vec<DiscordWebhookEmbed>, i: usize)
    requires
        i <= es@.len(),
    ensures
        final(out)@ == old(out)@ + embeds_json(es@.subrange(i as int, es@.len() as int)),
    decreases es@.len() - i,
{
    let ghost sub = es@.subrange(i as int, es@.len() as int);
    if i < es.len() {
        let e: &DiscordWebhookEmbed = &es[i];
        push_embed(out, e);
        if i + 1 < es.len() {
            out.push(',');
        }
        push_embeds(out, es, i + 1);
        proof {
            assert(sub[0] == es@[i as int]);
            assert(sub.drop_first() =~= es@.subrange(i + 1, es@.len() as int));
            if i + 1 < es@.len() {
                assert(out@ =~= old(out)@ + embeds_json(sub));
            } else {
                assert(es@.subrange(i + 1, es@.len() as int).len() == 0);
                assert(out@ =~= old(out)@ + embeds_json(sub));
            }
        }
    } else {
        proof {
            assert(sub.len() == 0);
            assert(out@ =~= old(out)@ + embeds_json(sub));
        }
    }
}

/// Renders the JSON body transmitted to the webhook for `m`.
pub fn message_payload(m: &DiscordWebhookMessage) -> (r: String)
    ensures
        r@ == message_json(*m),
{
    let mut out: Vec<char> = Vec::new();
    push_str_chars(&mut out, "{\"username\":");
    push_json_string(&mut out, m.username.as_str());
    push_str_chars(&mut out, ",\"content\":");
    push_json_string(&mut out, m.content.as_str());
    push_str_chars(&mut out, ",\"embeds\":[");
    push_embeds(&mut out, &m.embeds, 0);
    push_str_chars(&mut out, "]}");
    proof {
        assert(m.embeds@.subrange(0, m.embeds@.len() as int) =~= m.embeds@);
        assert(out@ =~= message_json(*m));
    }
    string_from_chars(&out)
}

} // verus!
