//! The request handler, as a state machine. One inbound request is handled
//! by a linear sequence of outbound steps: count tokens, notify usage (when
//! a webhook is configured), generate content, notify failures, respond.
//! The handler decides; the runtime around the library performs each
//! returned action (an HTTP POST or the final response) and reports the
//! result back as the next event. Token-count failures and notification
//! failures never change the response; only the generation outcome does.

use vstd::prelude::*;

use crate::chars::push_str_chars;
use crate::chars::string_from_chars;
use crate::discord_webhook::error_log_content;
use crate::discord_webhook::dec_int;
use crate::discord_webhook::message_json;
use crate::discord_webhook::message_json_of;
use crate::discord_webhook::message_payload;
use crate::discord_webhook::truncated_content;
use crate::discord_webhook::DiscordWebhookClient;
use crate::gemini_client::count_tokens_url_spec;
use crate::gemini_client::generate_content_url_spec;
use crate::gemini_client::prompt_body_json;
use crate::gemini_client::prompt_request_body;
use crate::gemini_client::response_body;
use crate::gemini_client::response_json;
use crate::gemini_client::GeminiClient;
use crate::gemini_client::GeminiResponse;
use crate::json::json_string;
use crate::json::push_json_string;
use crate::output::clean_error_output;
use crate::output::sanitize_spec;
use crate::prompt::get_prompt;
use crate::prompt::prompt_spec;

verus! {

/// HTTP status of a response to a transport-level generation failure.
pub const STATUS_INTERNAL_ERROR: u16 = 500;

/// The inbound request body, parsed into plain values.
pub struct RequestData {
    pub error_output: String,
    pub code: String,
    pub language: String,
}

/// What the content-generation call came back with.
pub enum GenerationOutcome {
    /// A response that decoded into candidates.
    Success(GeminiResponse),
    /// A non-2xx response carrying the upstream's structured error envelope.
    UpstreamError { code: u16, status: String, message: String },
    /// The call failed in transport; the details of the failure.
    TransportError(String),
}

/// What the runtime reports back to the handler after performing an action.
pub enum Event {
    /// Result of the token-count call: the count, or error details.
    TokenCount(Result<i32, String>),
    /// A notification was attempted; whether it was delivered.
    NotifySent(bool),
    /// Result of the content-generation call.
    Generation(GenerationOutcome),
}

/// The next outbound step the runtime must perform.
pub enum Action {
    /// POST `body` to `url` and report the token count.
    CountTokens { url: String, body: String },
    /// POST `payload` to the configured webhook, best effort.
    Notify { payload: String },
    /// POST `body` to `url` and report the generation outcome.
    GenerateContent { url: String, body: String },
    /// Answer the inbound call with this status and JSON body.
    Respond { status: u16, body: String },
}

/// Where the handler stands in the sequence.
pub enum Phase {
    /// Awaiting the token count.
    Counting,
    /// Awaiting the usage notification attempt.
    NotifyingUsage,
    /// Awaiting the generation outcome.
    Generating,
    /// Awaiting the failure notification attempt; the response is pending.
    NotifyingFailure,
    /// The response has been issued.
    Done,
}

/// The handler's state across one request.
pub struct Handler {
    pub webhook: DiscordWebhookClient,
    pub gemini: GeminiClient,
    pub language: String,
    pub cleaned: String,
    pub prompt: String,
    pub phase: Phase,
    pub pending_status: u16,
    pub pending_body: String,
}

// ---------------------------------------------------------------------------
// Ghost descriptions of the transitions
// ---------------------------------------------------------------------------

/// Ghost view of an action.
pub enum ActionSpec {
    CountTokens { url: Seq<char>, body: Seq<char> },
    Notify { payload: Seq<char> },
    GenerateContent { url: Seq<char>, body: Seq<char> },
    Respond { status: u16, body: Seq<char> },
}

/// The ghost view of an action.
pub open spec fn action_view(a: Action) -> ActionSpec {
    match a {
        Action::CountTokens { url, body } => ActionSpec::CountTokens { url: url@, body: body@ },
        Action::Notify { payload } => ActionSpec::Notify { payload: payload@ },
        Action::GenerateContent { url, body } => ActionSpec::GenerateContent {
            url: url@,
            body: body@,
        },
        Action::Respond { status, body } => ActionSpec::Respond { status, body: body@ },
    }
}

/// JSON body of the usage notification.
pub open spec fn usage_payload_json(language: Seq<char>, tokens: int, cleaned: Seq<char>) -> Seq<
    char,
> {
    message_json_of(
        "Gemini Assistant Server Log"@,
        truncated_content(cleaned),
        "{\"fields\":["@ + ("{\"name\":"@ + json_string("language"@) + ",\"value\":"@ + json_string(
            language,
        ) + "}"@) + seq![','] + ("{\"name\":"@ + json_string("tokens"@) + ",\"value\":"@
            + json_string(dec_int(tokens)) + "}"@) + "]}"@,
    )
}

/// JSON body of the failure notification for the given failure details.
pub open spec fn failure_payload_json(details: Seq<char>) -> Seq<char> {
    message_json_of(
        "Gemini Assistant Server Error Log"@,
        truncated_content(error_log_content("Result error: "@ + details)),
        Seq::empty(),
    )
}

/// The error body returned to the caller: `{"message":"Request error: <details>"}`.
pub open spec fn error_body_spec(details: Seq<char>) -> Seq<char> {
    "{\"message\":"@ + json_string("Request error: "@ + details) + "}"@
}

/// The details describing a failed generation outcome.
pub open spec fn failure_details(o: GenerationOutcome) -> Seq<char> {
    match o {
        GenerationOutcome::Success(_) => Seq::empty(),
        GenerationOutcome::UpstreamError { code, status, message } => status@ + ": "@ + message@,
        GenerationOutcome::TransportError(e) => e@,
    }
}

/// The HTTP status a failed generation outcome is answered with: the
/// upstream's own status code when its error envelope gave one, else 500.
pub open spec fn failure_status(o: GenerationOutcome) -> u16 {
    match o {
        GenerationOutcome::UpstreamError { code, status, message } => code,
        _ => STATUS_INTERNAL_ERROR,
    }
}

/// Whether the event answers what the handler's phase awaits.
pub open spec fn event_ok(h: Handler, ev: Event) -> bool {
    match h.phase {
        Phase::Counting => ev is TokenCount,
        Phase::NotifyingUsage => ev is NotifySent,
        Phase::Generating => ev is Generation,
        Phase::NotifyingFailure => ev is NotifySent,
        Phase::Done => false,
    }
}

/// The action each transition asks for.
pub open spec fn next_action_spec(h: Handler, ev: Event) -> ActionSpec {
    let generate = ActionSpec::GenerateContent {
        url: generate_content_url_spec(h.gemini.model@, h.gemini.api_key@),
        body: prompt_body_json(h.prompt@),
    };
    match h.phase {
        Phase::Counting => match ev {
            Event::TokenCount(res) => match res {
                Ok(n) => if h.webhook.enabled_spec() {
                    ActionSpec::Notify {
                        payload: usage_payload_json(h.language@, n as int, h.cleaned@),
                    }
                } else {
                    generate
                },
                Err(_) => generate,
            },
            _ => generate,
        },
        Phase::NotifyingUsage => generate,
        Phase::Generating => match ev {
            Event::Generation(outcome) => match outcome {
                GenerationOutcome::Success(resp) => ActionSpec::Respond {
                    status: crate::STATUS_OK,
                    body: response_json(resp),
                },
                _ => if h.webhook.enabled_spec() {
                    ActionSpec::Notify { payload: failure_payload_json(failure_details(outcome)) }
                } else {
                    ActionSpec::Respond {
                        status: failure_status(outcome),
                        body: error_body_spec(failure_details(outcome)),
                    }
                },
            },
            _ => generate,
        },
        Phase::NotifyingFailure => ActionSpec::Respond {
            status: h.pending_status,
            body: h.pending_body@,
        },
        Phase::Done => generate,
    }
}

/// The phase each transition moves to.
pub open spec fn next_phase_spec(h: Handler, ev: Event) -> Phase {
    match h.phase {
        Phase::Counting => match ev {
            Event::TokenCount(res) => match res {
                Ok(n) => if h.webhook.enabled_spec() {
                    Phase::NotifyingUsage
                } else {
                    Phase::Generating
                },
                Err(_) => Phase::Generating,
            },
            _ => Phase::Generating,
        },
        Phase::NotifyingUsage => Phase::Generating,
        Phase::Generating => match ev {
            Event::Generation(outcome) => match outcome {
                GenerationOutcome::Success(_) => Phase::Done,
                _ => if h.webhook.enabled_spec() {
                    Phase::NotifyingFailure
                } else {
                    Phase::Done
                },
            },
            _ => Phase::Done,
        },
        Phase::NotifyingFailure => Phase::Done,
        Phase::Done => Phase::Done,
    }
}

// ---------------------------------------------------------------------------
// Executable handler
// ---------------------------------------------------------------------------

/// Renders the error body `{"message":"Request error: <details>"}`.
pub fn error_body(details: &str) -> (r: String)
    ensures
        r@ == error_body_spec(details@),
{
    let mut msg = String::new();
    msg.append("Request error: ");
    msg.append(details);
    let mut out: Vec<char> = Vec::new();
    push_str_chars(&mut out, "{\"message\":");
    push_json_string(&mut out, msg.as_str());
    push_str_chars(&mut out, "}");
    proof {
        assert(msg@ =~= "Request error: "@ + details@);
        assert(out@ =~= error_body_spec(details@));
    }
    string_from_chars(&out)
}

impl Handler {
    /// Starts handling `req`: sanitizes the error output, renders the
    /// prompt, and asks for the token count first.
    pub fn begin(webhook: DiscordWebhookClient, gemini: GeminiClient, req: &RequestData) -> (r: (
        Handler,
        Action,
    ))
        ensures
            r.0.webhook == webhook,
            r.0.gemini == gemini,
            r.0.language@ == req.language@,
            r.0.cleaned@ == sanitize_spec(req.error_output@),
            r.0.prompt@ == prompt_spec(req.language@, sanitize_spec(req.error_output@), req.code@),
            r.0.phase is Counting,
            action_view(r.1) == (ActionSpec::CountTokens {
                url: count_tokens_url_spec(gemini.model@, gemini.api_key@),
                body: prompt_body_json(r.0.prompt@),
            }),
    {
        let cleaned = clean_error_output(req.error_output.as_str());
        let prompt = get_prompt(req.language.as_str(), cleaned.as_str(), req.code.as_str());
        let url = gemini.count_tokens_url();
        let body = prompt_request_body(prompt.as_str());
        let h = Handler {
            webhook,
            gemini,
            language: req.language.clone(),
            cleaned,
            prompt,
            phase: Phase::Counting,
            pending_status: 0,
            pending_body: String::new(),
        };
        (h, Action::CountTokens { url, body })
    }

    /// One transition: takes the event answering the previous action and
    /// returns the next action to perform.
    pub fn step(&mut self, ev: Event) -> (a: Action)
        requires
            event_ok(*old(self), ev),
        ensures
            action_view(a) == next_action_spec(*old(self), ev),
            final(self).phase == next_phase_spec(*old(self), ev),
            final(self).webhook == old(self).webhook,
            final(self).gemini == old(self).gemini,
            final(self).language == old(self).language,
            final(self).cleaned == old(self).cleaned,
            final(self).prompt == old(self).prompt,
            (next_phase_spec(*old(self), ev) is NotifyingFailure ==> (ev matches Event::Generation(
                o,
            ) && final(self).pending_status == failure_status(o) && final(self).pending_body@
                == error_body_spec(failure_details(o)))),
            (!(next_phase_spec(*old(self), ev) is NotifyingFailure) ==> final(self).pending_status
                == old(self).pending_status && final(self).pending_body == old(
                self,
            ).pending_body),
    {
        match self.phase {
            Phase::Counting => {
                match ev {
                    Event::TokenCount(res) => {
                        match res {
                            Ok(n) => {
                                if self.webhook.enabled() {
                                    let m_opt = self.webhook.build_token_info(
                                        self.language.as_str(),
                                        n,
                                        self.cleaned.as_str(),
                                    );
                                    match m_opt {
                                        Some(m) => {
                                            let payload = message_payload(&m);
                                            self.phase = Phase::NotifyingUsage;
                                            proof {
                                                lemma_usage_payload(
                                                    m,
                                                    self.language@,
                                                    n as int,
                                                    self.cleaned@,
                                                );
                                            }
                                            Action::Notify { payload }
                                        },
                                        None => unreached(),
                                    }
                                } else {
                                    self.phase = Phase::Generating;
                                    self.generate_action()
                                }
                            },
                            Err(_) => {
                                self.phase = Phase::Generating;
                                self.generate_action()
                            },
                        }
                    },
                    _ => unreached(),
                }
            },
            Phase::NotifyingUsage => {
                self.phase = Phase::Generating;
                self.generate_action()
            },
            Phase::Generating => {
                match ev {
                    Event::Generation(outcome) => {
                        match outcome {
                            GenerationOutcome::Success(resp) => {
                                self.phase = Phase::Done;
                                let body = response_body(&resp);
                                Action::Respond { status: crate::STATUS_OK, body }
                            },
                            GenerationOutcome::UpstreamError { code, status, message } => {
                                let mut details = String::new();
                                details.append(status.as_str());
                                details.append(": ");
                                details.append(message.as_str());
                                proof {
                                    assert(details@ =~= status@ + ": "@ + message@);
                                }
                                self.finish_failure(code, details)
                            },
                            GenerationOutcome::TransportError(e) => {
                                self.finish_failure(STATUS_INTERNAL_ERROR, e)
                            },
                        }
                    },
                    _ => unreached(),
                }
            },
            Phase::NotifyingFailure => {
                self.phase = Phase::Done;
                let body = self.pending_body.clone();
                Action::Respond { status: self.pending_status, body }
            },
            Phase::Done => unreached(),
        }
    }

    /// The content-generation action for this request.
    fn generate_action(&self) -> (a: Action)
        ensures
            action_view(a) == (ActionSpec::GenerateContent {
                url: generate_content_url_spec(self.gemini.model@, self.gemini.api_key@),
                body: prompt_body_json(self.prompt@),
            }),
    {
        let url = self.gemini.generate_content_url();
        let body = prompt_request_body(self.prompt.as_str());
        Action::GenerateContent { url, body }
    }

    /// Settles a failed generation: notifies the webhook first when one is
    /// configured, else responds at once.
    fn finish_failure(&mut self, code: u16, details: String) -> (a: Action)
        ensures
            final(self).webhook == old(self).webhook,
            final(self).gemini == old(self).gemini,
            final(self).language == old(self).language,
            final(self).cleaned == old(self).cleaned,
            final(self).prompt == old(self).prompt,
            old(self).webhook.enabled_spec() ==> {
                &&& final(self).phase is NotifyingFailure
                &&& final(self).pending_status == code
                &&& final(self).pending_body@ == error_body_spec(details@)
                &&& action_view(a) == ActionSpec::Notify {
                    payload: failure_payload_json(details@),
                }
            },
            !old(self).webhook.enabled_spec() ==> {
                &&& final(self).phase is Done
                &&& final(self).pending_status == old(self).pending_status
                &&& final(self).pending_body == old(self).pending_body
                &&& action_view(a) == ActionSpec::Respond {
                    status: code,
                    body: error_body_spec(details@),
                }
            },
    {
        let body = error_body(details.as_str());
        if self.webhook.enabled() {
            let mut err = String::new();
            err.append("Result error: ");
            err.append(details.as_str());
            let m_opt = self.webhook.build_error_log(err.as_str());
            match m_opt {
                Some(m) => {
                    let payload = message_payload(&m);
                    self.phase = Phase::NotifyingFailure;
                    self.pending_status = code;
                    self.pending_body = body;
                    proof {
                        assert(err@ =~= "Result error: "@ + details@);
                        lemma_failure_payload(m, details@);
                    }
                    Action::Notify { payload }
                },
                None => unreached(),
            }
        } else {
            self.phase = Phase::Done;
            Action::Respond { status: code, body }
        }
    }
}

/// The JSON of the usage message equals the seq-level description.
proof fn lemma_usage_payload(
    m: crate::discord_webhook::DiscordWebhookMessage,
    language: Seq<char>,
    tokens: int,
    cleaned: Seq<char>,
)
    requires
        m.username@ == "Gemini Assistant Server Log"@,
        m.content@ == truncated_content(cleaned),
        m.embeds@.len() == 1,
        m.embeds@[0].fields@.len() == 2,
        m.embeds@[0].fields@[0].name@ == "language"@,
        m.embeds@[0].fields@[0].value@ == language,
        m.embeds@[0].fields@[1].name@ == "tokens"@,
        m.embeds@[0].fields@[1].value@ == dec_int(tokens),
    ensures
        message_json(m) == usage_payload_json(language, tokens, cleaned),
{
    let fs = m.embeds@[0].fields@;
    assert(fs.drop_first() =~= seq![fs[1]]);
    assert(crate::discord_webhook::fields_json(fs)
        == crate::discord_webhook::field_json(fs[0]) + seq![',']
        + crate::discord_webhook::fields_json(fs.drop_first()));
    assert(crate::discord_webhook::embeds_json(m.embeds@) == crate::discord_webhook::embed_json(
        m.embeds@[0],
    ));
    assert(message_json(m) =~= usage_payload_json(language, tokens, cleaned));
}

/// The JSON of the failure message equals the seq-level description.
proof fn lemma_failure_payload(m: crate::discord_webhook::DiscordWebhookMessage, details: Seq<char>)
    requires
        m.username@ == "Gemini Assistant Server Error Log"@,
        m.content@ == truncated_content(error_log_content("Result error: "@ + details)),
        m.embeds@.len() == 0,
    ensures
        message_json(m) == failure_payload_json(details),
{
    assert(crate::discord_webhook::embeds_json(m.embeds@) =~= Seq::<char>::empty());
    assert(message_json(m) =~= failure_payload_json(details));
}

// ---------------------------------------------------------------------------
// Laws of the handler
// ---------------------------------------------------------------------------

/// With no webhook URL configured, no transition ever asks for a
/// notification: the webhook is a silent no-op and cannot fail a request.
pub proof fn lemma_disabled_webhook_never_notifies(h: Handler, ev: Event)
    requires
        !h.webhook.enabled_spec(),
        event_ok(h, ev),
    ensures
        !(next_action_spec(h, ev) is Notify),
{
}

/// Whether a notification was delivered never changes what the handler does
/// next: the transition is identical for both reports.
pub proof fn lemma_notify_result_ignored(h: Handler, ok1: bool, ok2: bool)
    requires
        event_ok(h, Event::NotifySent(ok1)),
    ensures
        event_ok(h, Event::NotifySent(ok2)),
        next_action_spec(h, Event::NotifySent(ok1)) == next_action_spec(
            h,
            Event::NotifySent(ok2),
        ),
        next_phase_spec(h, Event::NotifySent(ok1)) == next_phase_spec(h, Event::NotifySent(ok2)),
{
}

/// A failed generation is answered the same whether or not a webhook was
/// notified in between: once the handler awaits the failure notification
/// with the response that outcome `o` pins, the transition responds with
/// exactly that status and body, whatever the notification attempt reported.
pub proof fn lemma_failure_response_pinned(h: Handler, o: GenerationOutcome, b: bool)
    requires
        h.phase is NotifyingFailure,
        h.pending_status == failure_status(o),
        h.pending_body@ == error_body_spec(failure_details(o)),
    ensures
        next_action_spec(h, Event::NotifySent(b)) == (ActionSpec::Respond {
            status: failure_status(o),
            body: error_body_spec(failure_details(o)),
        }),
        next_phase_spec(h, Event::NotifySent(b)) is Done,
{
}

/// A token-count failure is swallowed: the handler proceeds to generation
/// exactly as when no webhook is configured, and never responds early.
pub proof fn lemma_count_failure_swallowed(h: Handler, e1: Event, e2: Event)
    requires
        h.phase is Counting,
        e1 matches Event::TokenCount(r1) && r1 is Err,
        e2 matches Event::TokenCount(r2) && r2 is Err,
    ensures
        next_action_spec(h, e1) == next_action_spec(h, e2),
        next_phase_spec(h, e1) is Generating,
        next_action_spec(h, e1) is GenerateContent,
{
}

} // verus!
