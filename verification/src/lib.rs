//! A verified core for a single-endpoint troubleshooting relay.
//!
//! The library holds the request-scoped logic of the relay: sanitizing
//! captured error output, rendering the bilingual troubleshooting prompt,
//! framing the JSON bodies exchanged with the generative-language service
//! and the chat webhook, and the handler's decision sequence. All network
//! I/O lives outside the library; callers perform the outbound calls that
//! the handler's actions describe and feed the results back as events.

use vstd::prelude::*;

pub mod chars;
pub mod discord_webhook;
pub mod gemini_client;
pub mod handler;
pub mod json;
pub mod output;
pub mod prompt;

pub use output::clean_error_output;
pub use prompt::get_prompt;

verus! {

/// HTTP status code of every successful response, including the liveness check.
pub const STATUS_OK: u16 = 200;

/// Body of the liveness-check response.
pub open spec fn health_body_spec() -> Seq<char> {
    "{\"status\":\"OK\"}"@
}

/// The liveness check: a fixed status payload, independent of any configuration.
pub fn health_response() -> (r: (u16, String))
    ensures
        r.0 == STATUS_OK,
        r.1@ == health_body_spec(),
{
    (STATUS_OK, "{\"status\":\"OK\"}".to_owned())
}

} // verus!
