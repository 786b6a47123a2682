//! Completion service layer: the request input, its errors, the completion
//! id, the cursor path lookup and the retry rule of a completion run.

use vstd::prelude::*;

use std::sync::Arc;

use crate::config::{resolved, Config, ConfigView};
use crate::cursor::{CompletionOutput, DeltaView, StreamDelta};
use crate::openai::{
    conversation_prompt, extract_user_message, format_messages_as_prompt, last_user_text, ChatCompletionRequest,
    ChatMessage,
};
use crate::text::{concat, owned_text, slice_text, trim, trim_str};

verus! {

/// `std::io::Error`, carried opaquely in `CompletionError::SpawnFailed`.
#[verifier::external_type_specification]
#[verifier::external_body]
pub struct ExIoError(std::io::Error);

/// Structured input for a single completion request (built from HTTP body + headers).
#[derive(Clone, Debug)]
pub struct CompletionInput {
    pub user_msg: String,
    pub model: String,
    pub stream: bool,
    pub external_session_id: Option<String>,
}

/// Business errors for completion; handler maps to HTTP status and body.
#[derive(Debug)]
pub enum CompletionError {
    CursorNotFound,
    InvalidRequest(&'static str),
    NoContent,
    SpawnFailed(std::io::Error),
    JoinFailed(String),
}

/// The external session id a header value gives: the trimmed value, when
/// that is not empty.
pub open spec fn session_id_of(header: Option<Seq<char>>) -> Option<Seq<char>> {
    match header {
        Some(h) => if trim(h).len() > 0 {
            Some(trim(h))
        } else {
            None
        },
        None => None,
    }
}

/// The prompt a request gives cursor-agent: the text of its only message, or
/// for a conversation of several messages the whole conversation synthesized
/// into one prompt.
pub open spec fn request_prompt(ms: Seq<ChatMessage>) -> Seq<char> {
    if ms.len() > 1 {
        conversation_prompt(ms)
    } else {
        last_user_text(ms)
    }
}

/// The model a request runs with: the request's model, else the configured
/// default model, else `auto`.
pub open spec fn request_model(requested: Option<String>, default_model: Option<&str>) -> Seq<char> {
    match requested {
        Some(m) => m@,
        None => match default_model {
            Some(d) => d@,
            None => "auto"@,
        },
    }
}

impl CompletionInput {
    /// Builds the input from the request body, the value of the session
    /// header (`None` when absent or not visible ASCII) and the configured
    /// default model. Fails when no user message gives any text.
    pub fn from_request(
        body: &ChatCompletionRequest,
        session_header: Option<&str>,
        default_model: Option<&str>,
    ) -> (r: Result<Self, CompletionError>)
        ensures
            last_user_text(body.messages@).len() == 0 <==> r is Err,
            r matches Err(e) ==> e matches CompletionError::InvalidRequest(m) && m@
                == "no user message in messages"@,
            r matches Ok(input) ==> {
                &&& input.user_msg@ == request_prompt(body.messages@)
                &&& input.model@ == request_model(body.model, default_model)
                &&& input.stream == match body.stream {
                    Some(b) => b,
                    None => false,
                }
                &&& owned_text(input.external_session_id) == session_id_of(slice_text(session_header))
            },
    {
        let last_user = extract_user_message(body.messages.as_slice());
        if last_user.as_str().is_empty() {
            return Err(CompletionError::InvalidRequest("no user message in messages"));
        }
        let user_msg = if body.messages.len() > 1 {
            format_messages_as_prompt(body.messages.as_slice())
        } else {
            last_user
        };
        let model = match &body.model {
            Some(m) => m.clone(),
            None => match default_model {
                Some(d) => d.to_owned(),
                None => "auto".to_owned(),
            },
        };
        let stream = match body.stream {
            Some(b) => b,
            None => false,
        };
        let external_session_id = match session_header {
            Some(h) => {
                let t = trim_str(h);
                if t.as_str().is_empty() {
                    None
                } else {
                    Some(t)
                }
            },
            None => None,
        };
        Ok(CompletionInput { user_msg, model, stream, external_session_id })
    }
}

/// The completion id for a given UUID in simple (hexadecimal) form:
/// `chatcmpl-` and the UUID.
pub fn completion_id_from(uuid_hex: &str) -> (r: String)
    ensures
        r@ == "chatcmpl-"@ + uuid_hex@,
{
    concat("chatcmpl-", uuid_hex)
}

/// What to do after one cursor-agent run of a completion.
#[derive(Debug, PartialEq, Eq, Structural)]
pub enum AttemptOutcome {
    /// The output has content: answer with it.
    Done,
    /// The output is empty while resuming a stored session: forget the
    /// stored mapping and run once more without resuming.
    RetryFresh,
    /// The output is empty and a fallback model is configured and not yet
    /// tried: run once more with the fallback model.
    RetryWithFallback,
    /// The output is empty: answer "no content".
    NoContent,
}

/// The retry rule: an empty output from a resumed session is retried once
/// afresh; an empty output is then retried once with the fallback model, if
/// one is configured; any other empty output is an error.
pub open spec fn outcome_of(has_external_session: bool, resumed: bool, fallback_left: bool, empty: bool) -> AttemptOutcome {
    if empty && has_external_session && resumed {
        AttemptOutcome::RetryFresh
    } else if empty && fallback_left {
        AttemptOutcome::RetryWithFallback
    } else if empty {
        AttemptOutcome::NoContent
    } else {
        AttemptOutcome::Done
    }
}

/// Decides what follows a run: `resumed` tells whether it resumed a stored
/// session, `fallback_model` is the configured fallback model and
/// `used_fallback` whether this run already used it.
pub fn after_attempt(
    input: &CompletionInput,
    resumed: bool,
    fallback_model: Option<&str>,
    used_fallback: bool,
    out: &CompletionOutput,
) -> (r: AttemptOutcome)
    ensures
        r == outcome_of(
            input.external_session_id is Some,
            resumed,
            fallback_model is Some && !used_fallback,
            out.content@.len() == 0 && out.thinking_text@.len() == 0,
        ),
{
    let empty = out.is_empty();
    if empty && input.external_session_id.is_some() && resumed {
        AttemptOutcome::RetryFresh
    } else if empty && fallback_model.is_some() && !used_fallback {
        AttemptOutcome::RetryWithFallback
    } else if empty {
        AttemptOutcome::NoContent
    } else {
        AttemptOutcome::Done
    }
}

/// Decides what follows a streaming run, by the same rule: the run counts as
/// empty when it sent no content delta (its end delta is held back until
/// this is decided, so a retried run sends the client nothing but content).
pub fn after_stream_attempt(
    input: &CompletionInput,
    resumed: bool,
    fallback_model: Option<&str>,
    used_fallback: bool,
    sent_content: bool,
) -> (r: AttemptOutcome)
    ensures
        r == outcome_of(
            input.external_session_id is Some,
            resumed,
            fallback_model is Some && !used_fallback,
            !sent_content,
        ),
{
    let empty = !sent_content;
    if empty && input.external_session_id.is_some() && resumed {
        AttemptOutcome::RetryFresh
    } else if empty && fallback_model.is_some() && !used_fallback {
        AttemptOutcome::RetryWithFallback
    } else if empty {
        AttemptOutcome::NoContent
    } else {
        AttemptOutcome::Done
    }
}

/// How many more retries a run may still lead to: one for a resumed session,
/// one for an unused fallback model.
pub open spec fn retries_left(resumed: bool, fallback_left: bool) -> nat {
    (if resumed {
        1nat
    } else {
        0nat
    }) + (if fallback_left {
        1nat
    } else {
        0nat
    })
}

/// At most three runs: a fresh retry needs a resumed session and the next run
/// does not resume; a fallback retry needs an unused fallback model and the
/// next run has used it; so each retry lowers what is left. An output with
/// content is always answered, and an empty one never is.
pub proof fn law_retries_are_bounded(has_external_session: bool, resumed: bool, fallback_left: bool, empty: bool)
    ensures
        outcome_of(has_external_session, resumed, fallback_left, empty) == AttemptOutcome::RetryFresh
            ==> resumed && retries_left(false, fallback_left) < retries_left(resumed, fallback_left),
        outcome_of(has_external_session, resumed, fallback_left, empty) == AttemptOutcome::RetryWithFallback
            ==> fallback_left && retries_left(resumed, false) < retries_left(resumed, fallback_left),
        (outcome_of(has_external_session, resumed, fallback_left, empty) == AttemptOutcome::Done) <==> !empty,
        outcome_of(has_external_session, false, false, empty) != AttemptOutcome::RetryFresh
            && outcome_of(has_external_session, false, false, empty) != AttemptOutcome::RetryWithFallback,
{
}

/// The `Done` delta that reports a failed start of cursor-agent, given the
/// error's text.
pub fn spawn_error_delta_from(error_text: &str) -> (d: StreamDelta)
    ensures
        d@ == DeltaView::Done("spawn_error: "@ + error_text@),
{
    StreamDelta::Done { finish_reason: concat("spawn_error: ", error_text) }
}

/// The text of an I/O error, as its `Display` writes it. Nothing is claimed
/// of it: it comes from the operating system.
#[verifier::external_body]
pub(crate) fn io_error_text(e: &std::io::Error) -> String {
    format!("{}", e)
}

/// The `Done` delta that reports a failed start of cursor-agent.
pub fn spawn_error_delta(e: &std::io::Error) -> (d: StreamDelta)
    ensures
        exists|t: Seq<char>| #[trigger] (d@) == DeltaView::Done("spawn_error: "@ + t),
{
    let t = io_error_text(e);
    spawn_error_delta_from(t.as_str())
}

/// Completion service: owns the configuration and the request timeout.
pub struct CompletionService {
    config: Arc<Config>,
    timeout_secs: u64,
}

impl CompletionService {
    /// The configuration the service runs with.
    pub closed spec fn config_view(&self) -> ConfigView {
        (*self.config)@
    }

    /// The per-request timeout, in seconds.
    pub closed spec fn timeout_view(&self) -> u64 {
        self.timeout_secs
    }

    pub fn new(config: Arc<Config>) -> (r: Self)
        ensures
            r.config_view() == (*config)@,
            r.timeout_view() == config.request_timeout_sec,
    {
        let timeout_secs = config.request_timeout_sec;
        CompletionService { config, timeout_secs }
    }

    /// The configuration the service runs with.
    pub fn config(&self) -> (r: &Config)
        ensures
            r@ == self.config_view(),
    {
        &self.config
    }

    /// The per-request timeout, in seconds.
    pub fn timeout_secs(&self) -> (r: u64)
        ensures
            r == self.timeout_view(),
    {
        self.timeout_secs
    }

    /// Resolves the cursor-agent path as the configuration does
    /// (`Config::resolve_cursor_path`); reports `CursorNotFound` when there
    /// is none.
    pub fn cursor_path<E, L, S>(&self, path_exists: E, lookup: L, search_paths: S) -> (r: Result<String, CompletionError>) where
        E: Fn(&String) -> bool,
        L: FnOnce() -> Option<String>,
        S: FnOnce() -> Vec<String>,

        requires
            forall|p: &String| path_exists.requires((p,)),
            lookup.requires(()),
            search_paths.requires(()),
        ensures
            match r {
                Ok(s) => resolved(self.config_view().cursor_path, path_exists, lookup, search_paths, Some(s@)),
                Err(e) => e is CursorNotFound && resolved(
                    self.config_view().cursor_path,
                    path_exists,
                    lookup,
                    search_paths,
                    None,
                ),
            },
    {
        match self.config.resolve_cursor_path(path_exists, lookup, search_paths) {
            Some(p) => Ok(p),
            None => Err(CompletionError::CursorNotFound),
        }
    }
}

} // verus!
