//! What the HTTP routes answer, as values: the error mapping, the health
//! report, the model list and the session cache capacity.

use vstd::prelude::*;

use crate::config::default_models_list;
use crate::service::CompletionError;
use crate::text::{concat, owned_text, slice_text};

verus! {

/// OpenAI-style error detail.
#[derive(Debug)]
pub struct ErrorDetail {
    pub message: String,
    pub code: Option<String>,
}

/// OpenAI-style error body.
#[derive(Debug)]
pub struct ErrorBody {
    pub error: ErrorDetail,
}

/// An error answer: status and body.
pub fn err_response(status: u16, message: &str, code: Option<&str>) -> (r: (u16, ErrorBody))
    ensures
        r.0 == status,
        r.1.error.message@ == message@,
        owned_text(r.1.error.code) == slice_text(code),
{
    let code = match code {
        Some(c) => Some(c.to_owned()),
        None => None,
    };
    (status, ErrorBody { error: ErrorDetail { message: message.to_owned(), code } })
}

/// `503 Service Unavailable`
pub const SERVICE_UNAVAILABLE: u16 = 503;

/// `400 Bad Request`
pub const BAD_REQUEST: u16 = 400;

/// `500 Internal Server Error`
pub const INTERNAL_SERVER_ERROR: u16 = 500;

/// The status a completion error is answered with.
pub open spec fn status_of(e: CompletionError) -> u16 {
    match e {
        CompletionError::InvalidRequest(_) => BAD_REQUEST,
        CompletionError::JoinFailed(_) => INTERNAL_SERVER_ERROR,
        _ => SERVICE_UNAVAILABLE,
    }
}

/// The answer to a failed start of cursor-agent, given the error's text.
pub fn spawn_failed_response(error_text: &str) -> (r: (u16, ErrorBody))
    ensures
        r.0 == SERVICE_UNAVAILABLE,
        r.1.error.message@ == "Failed to start cursor-agent: "@ + error_text@,
        owned_text(r.1.error.code) == Some("spawn_failed"@),
{
    let message = concat("Failed to start cursor-agent: ", error_text);
    err_response(SERVICE_UNAVAILABLE, message.as_str(), Some("spawn_failed"))
}

/// Maps a completion error to its HTTP status and OpenAI-style body; the
/// text of a failed start's error comes from the operating system.
pub fn completion_error_to_http(e: &CompletionError) -> (r: (u16, ErrorBody))
    ensures
        r.0 == status_of(*e),
        match *e {
            CompletionError::CursorNotFound => r.1.error.message@
                == "cursor-agent not found. Set CURSOR_PATH or ensure Cursor is installed."@
                && owned_text(r.1.error.code) == Some("cursor_not_found"@),
            CompletionError::InvalidRequest(m) => r.1.error.message@ == m@ && owned_text(
                r.1.error.code,
            ) == Some("invalid_request"@),
            CompletionError::NoContent => r.1.error.message@
                == "cursor-agent returned no content. Please try again later."@ && owned_text(
                r.1.error.code,
            ) == Some("no_response"@),
            CompletionError::SpawnFailed(_) => (exists|t: Seq<char>|
                #[trigger] (r.1.error.message@) == "Failed to start cursor-agent: "@ + t)
                && owned_text(r.1.error.code) == Some("spawn_failed"@),
            CompletionError::JoinFailed(m) => r.1.error.message@ == m@ && r.1.error.code is None,
        },
{
    match e {
        CompletionError::CursorNotFound => err_response(
            SERVICE_UNAVAILABLE,
            "cursor-agent not found. Set CURSOR_PATH or ensure Cursor is installed.",
            Some("cursor_not_found"),
        ),
        CompletionError::InvalidRequest(msg) => err_response(BAD_REQUEST, msg, Some("invalid_request")),
        CompletionError::NoContent => err_response(
            SERVICE_UNAVAILABLE,
            "cursor-agent returned no content. Please try again later.",
            Some("no_response"),
        ),
        CompletionError::SpawnFailed(io) => {
            let text = crate::service::io_error_text(io);
            spawn_failed_response(text.as_str())
        },
        CompletionError::JoinFailed(msg) => err_response(INTERNAL_SERVER_ERROR, msg.as_str(), None),
    }
}

/// GET /v1/health answer.
#[derive(Debug)]
pub struct HealthReport {
    pub status: &'static str,
    pub cursor: bool,
    pub port: u16,
    pub session_storage: &'static str,
}

/// The health answer: `ok` when cursor-agent is found, else `degraded`.
pub fn health_report(cursor_ok: bool, port: u16) -> (r: HealthReport)
    ensures
        r.status@ == if cursor_ok {
            "ok"@
        } else {
            "degraded"@
        },
        r.cursor == cursor_ok,
        r.port == port,
        r.session_storage@ == "file"@,
{
    HealthReport {
        status: if cursor_ok {
            "ok"
        } else {
            "degraded"
        },
        cursor: cursor_ok,
        port,
        session_storage: "file",
    }
}

/// One entry of the GET /v1/models answer.
#[derive(Debug)]
pub struct ModelEntry {
    pub id: String,
    pub object: &'static str,
    pub created: u64,
}

/// GET /v1/models answer.
#[derive(Debug)]
pub struct ModelList {
    pub object: &'static str,
    pub data: Vec<ModelEntry>,
}

/// The model ids answered on GET /v1/models: those that `agent --list-models`
/// gave, else the default list `auto`, `cursor-default`.
pub open spec fn answered_models(agent_ids: Seq<Seq<char>>) -> Seq<Seq<char>> {
    if agent_ids.len() > 0 {
        agent_ids
    } else {
        seq!["auto"@, "cursor-default"@]
    }
}

/// The GET /v1/models answer for the ids cursor-agent listed (empty when the
/// listing failed or gave none): one `model` entry per id, created at 0.
pub fn models_response(agent_ids: &Vec<String>) -> (r: ModelList)
    ensures
        r.object@ == "list"@,
        r.data@.len() == answered_models(agent_ids.deep_view()).len(),
        forall|i: int|
            0 <= i < r.data@.len() ==> {
                &&& (#[trigger] r.data@[i]).id@ == answered_models(agent_ids.deep_view())[i]
                &&& r.data@[i].object@ == "model"@
                &&& r.data@[i].created == 0
            },
{
    let mut data: Vec<ModelEntry> = Vec::new();
    if agent_ids.len() > 0 {
        let mut i: usize = 0;
        while i < agent_ids.len()
            invariant
                i <= agent_ids@.len(),
                agent_ids@.len() > 0,
                data@.len() == i,
                forall|j: int|
                    0 <= j < i ==> {
                        &&& (#[trigger] data@[j]).id@ == agent_ids@[j]@
                        &&& data@[j].object@ == "model"@
                        &&& data@[j].created == 0
                    },
            decreases agent_ids@.len() - i,
        {
            data.push(ModelEntry { id: agent_ids[i].clone(), object: "model", created: 0 });
            i = i + 1;
        }
    } else {
        let defaults = default_models_list();
        data.push(ModelEntry { id: defaults[0].to_owned(), object: "model", created: 0 });
        data.push(ModelEntry { id: defaults[1].to_owned(), object: "model", created: 0 });
    }
    ModelList { object: "list", data }
}

/// The session cache capacity for a configured maximum (at least one).
pub fn session_capacity(session_cache_max: u32) -> (n: usize)
    ensures
        n as nat == if session_cache_max == 0 {
            1
        } else {
            session_cache_max as nat
        },
{
    if session_cache_max == 0 {
        1
    } else {
        session_cache_max as usize
    }
}

} // verus!
