use std::sync::Arc;

use ironclaw_cursor_brain::config::{config_from_sources, EnvSettings};
use ironclaw_cursor_brain::cursor::{CompletionOutput, StreamDelta};
use ironclaw_cursor_brain::json::Json;
use ironclaw_cursor_brain::openai::{ChatCompletionRequest, ChatMessage};
use ironclaw_cursor_brain::server::{
    completion_error_to_http, health_report, models_response, session_capacity, spawn_failed_response,
};
use ironclaw_cursor_brain::service::{
    after_attempt, after_stream_attempt, completion_id_from, spawn_error_delta, spawn_error_delta_from,
    AttemptOutcome, CompletionError, CompletionInput, CompletionService,
};

fn env_none() -> EnvSettings {
    EnvSettings {
        cursor_path: None,
        port: None,
        port_alias: None,
        request_timeout_sec: None,
        session_cache_max: None,
        session_header_name: None,
        default_model: None,
        fallback_model: None,
    }
}

fn request(model: Option<&str>, stream: Option<bool>, text: &str) -> ChatCompletionRequest {
    ChatCompletionRequest {
        model: model.map(String::from),
        messages: vec![ChatMessage { role: "user".into(), content: Some(Json::Str(text.into())) }],
        stream,
        max_tokens: None,
    }
}

fn out(content: &str, thinking: &str) -> CompletionOutput {
    CompletionOutput { content: content.into(), thinking_text: thinking.into(), finish_reason: "stop".into() }
}

#[test]
fn input_from_request_defaults() {
    let input = CompletionInput::from_request(&request(None, None, "hi"), None, None).unwrap();
    assert_eq!(input.user_msg, "hi");
    assert_eq!(input.model, "auto");
    assert!(!input.stream);
    assert_eq!(input.external_session_id, None);
}

#[test]
fn input_from_request_with_session_header() {
    let input = CompletionInput::from_request(&request(Some("gpt-5"), Some(true), "hi"), Some("  conv-1 "), Some("d")).unwrap();
    assert_eq!(input.model, "gpt-5");
    assert!(input.stream);
    assert_eq!(input.external_session_id.as_deref(), Some("conv-1"));
    let blank = CompletionInput::from_request(&request(None, None, "hi"), Some("   "), None).unwrap();
    assert_eq!(blank.external_session_id, None);
}

#[test]
fn input_without_user_text_is_invalid() {
    match CompletionInput::from_request(&request(None, None, ""), None, None) {
        Err(CompletionError::InvalidRequest(m)) => assert_eq!(m, "no user message in messages"),
        other => panic!("unexpected {:?}", other),
    }
}

#[test]
fn retry_rule() {
    let with_session = CompletionInput::from_request(&request(None, None, "hi"), Some("ext"), None).unwrap();
    let without = CompletionInput::from_request(&request(None, None, "hi"), None, None).unwrap();
    assert_eq!(after_attempt(&with_session, true, None, false, &out("", "")), AttemptOutcome::RetryFresh);
    assert_eq!(after_attempt(&with_session, true, Some("f"), false, &out("", "")), AttemptOutcome::RetryFresh);
    assert_eq!(after_attempt(&with_session, false, None, false, &out("", "")), AttemptOutcome::NoContent);
    assert_eq!(after_attempt(&without, true, None, false, &out("", "")), AttemptOutcome::NoContent);
    assert_eq!(after_attempt(&with_session, true, None, false, &out("x", "")), AttemptOutcome::Done);
    assert_eq!(after_attempt(&without, false, None, false, &out("", "t")), AttemptOutcome::Done);
}

#[test]
fn fallback_model_retry() {
    let without = CompletionInput::from_request(&request(None, None, "hi"), None, None).unwrap();
    assert_eq!(after_attempt(&without, false, Some("gpt-5"), false, &out("", "")), AttemptOutcome::RetryWithFallback);
    assert_eq!(after_attempt(&without, false, Some("gpt-5"), true, &out("", "")), AttemptOutcome::NoContent);
    assert_eq!(after_attempt(&without, false, Some("gpt-5"), false, &out("c", "")), AttemptOutcome::Done);
}

#[test]
fn stream_retry_rule() {
    let with_session = CompletionInput::from_request(&request(None, Some(true), "hi"), Some("ext"), None).unwrap();
    let without = CompletionInput::from_request(&request(None, Some(true), "hi"), None, None).unwrap();
    // a resumed run that sent no content is retried afresh
    assert_eq!(after_stream_attempt(&with_session, true, None, false, false), AttemptOutcome::RetryFresh);
    assert_eq!(after_stream_attempt(&with_session, false, None, false, false), AttemptOutcome::NoContent);
    assert_eq!(after_stream_attempt(&with_session, true, None, false, true), AttemptOutcome::Done);
    assert_eq!(after_stream_attempt(&without, false, Some("gpt-5"), false, false), AttemptOutcome::RetryWithFallback);
    assert_eq!(after_stream_attempt(&without, false, Some("gpt-5"), true, false), AttemptOutcome::NoContent);
    assert_eq!(after_stream_attempt(&without, false, Some("gpt-5"), false, true), AttemptOutcome::Done);
}

#[test]
fn default_model_from_config() {
    let input = CompletionInput::from_request(&request(None, None, "hi"), None, Some("composer-1.5")).unwrap();
    assert_eq!(input.model, "composer-1.5");
    let explicit = CompletionInput::from_request(&request(Some("m"), None, "hi"), None, Some("composer-1.5")).unwrap();
    assert_eq!(explicit.model, "m");
}

#[test]
fn conversation_is_synthesized() {
    let body = ChatCompletionRequest {
        model: None,
        messages: vec![
            ChatMessage { role: "system".into(), content: Some(Json::Str("Be brief".into())) },
            ChatMessage { role: "user".into(), content: Some(Json::Str("hi".into())) },
        ],
        stream: None,
        max_tokens: None,
    };
    let input = CompletionInput::from_request(&body, None, None).unwrap();
    assert_eq!(input.user_msg, "System: Be brief\n\n---\n\nUser: hi");
    let no_user = ChatCompletionRequest {
        model: None,
        messages: vec![
            ChatMessage { role: "system".into(), content: Some(Json::Str("Be brief".into())) },
            ChatMessage { role: "assistant".into(), content: Some(Json::Str("ok".into())) },
        ],
        stream: None,
        max_tokens: None,
    };
    assert!(matches!(CompletionInput::from_request(&no_user, None, None), Err(CompletionError::InvalidRequest(_))));
}

#[test]
fn completion_ids() {
    assert_eq!(completion_id_from("0123456789abcdef0123456789abcdef"), "chatcmpl-0123456789abcdef0123456789abcdef");
}

#[test]
fn service_cursor_path() {
    let mut c = config_from_sources(Some(r#"{"cursor_path":"/x/agent","request_timeout_sec":12}"#), &env_none());
    let svc = CompletionService::new(Arc::new(c.clone()));
    assert_eq!(svc.timeout_secs(), 12);
    assert_eq!(svc.config().port, 3001);
    assert_eq!(svc.cursor_path(|_p: &String| true, || None, Vec::new).unwrap(), "/x/agent");
    assert!(matches!(svc.cursor_path(|_p: &String| false, || None, Vec::new), Err(CompletionError::CursorNotFound)));
    c.cursor_path = None;
    let svc2 = CompletionService::new(Arc::new(c));
    assert_eq!(svc2.cursor_path(|_p: &String| true, || Some("/d\n".into()), Vec::new).unwrap(), "/d");
    assert_eq!(svc2.cursor_path(|_p: &String| true, || None, || vec!["/s/agent".to_string()]).unwrap(), "/s/agent");
}

#[test]
fn spawn_error_deltas() {
    match spawn_error_delta_from("boom") {
        StreamDelta::Done { finish_reason } => assert_eq!(finish_reason, "spawn_error: boom"),
        other => panic!("unexpected {:?}", other),
    }
    let e = std::io::Error::new(std::io::ErrorKind::NotFound, "no such file");
    match spawn_error_delta(&e) {
        StreamDelta::Done { finish_reason } => assert_eq!(finish_reason, "spawn_error: no such file"),
        other => panic!("unexpected {:?}", other),
    }
}

#[test]
fn error_mapping() {
    let (s, b) = completion_error_to_http(&CompletionError::CursorNotFound);
    assert_eq!(s, 503);
    assert_eq!(b.error.message, "cursor-agent not found. Set CURSOR_PATH or ensure Cursor is installed.");
    assert_eq!(b.error.code.as_deref(), Some("cursor_not_found"));
    let (s, b) = completion_error_to_http(&CompletionError::InvalidRequest("bad"));
    assert_eq!((s, b.error.message.as_str(), b.error.code.as_deref()), (400, "bad", Some("invalid_request")));
    let (s, b) = completion_error_to_http(&CompletionError::NoContent);
    assert_eq!((s, b.error.code.as_deref()), (503, Some("no_response")));
    assert_eq!(b.error.message, "cursor-agent returned no content. Please try again later.");
    let io = std::io::Error::new(std::io::ErrorKind::PermissionDenied, "denied");
    let (s, b) = completion_error_to_http(&CompletionError::SpawnFailed(io));
    assert_eq!((s, b.error.message.as_str(), b.error.code.as_deref()), (503, "Failed to start cursor-agent: denied", Some("spawn_failed")));
    let (s, b) = spawn_failed_response("no such file");
    assert_eq!((s, b.error.message.as_str(), b.error.code.as_deref()), (503, "Failed to start cursor-agent: no such file", Some("spawn_failed")));
    let (s, b) = completion_error_to_http(&CompletionError::JoinFailed("panicked".into()));
    assert_eq!((s, b.error.message.as_str(), b.error.code), (500, "panicked", None));
}

#[test]
fn health_and_models() {
    let h = health_report(true, 3001);
    assert_eq!((h.status, h.cursor, h.port, h.session_storage), ("ok", true, 3001, "file"));
    assert_eq!(health_report(false, 1).status, "degraded");
    let m = models_response(&Vec::new());
    assert_eq!(m.object, "list");
    let ids: Vec<&str> = m.data.iter().map(|e| e.id.as_str()).collect();
    assert_eq!(ids, vec!["auto", "cursor-default"]);
    assert!(m.data.iter().all(|e| e.object == "model" && e.created == 0));
    let listed = models_response(&vec!["gpt-5".to_string(), "sonnet-4.5".to_string()]);
    let ids: Vec<&str> = listed.data.iter().map(|e| e.id.as_str()).collect();
    assert_eq!(ids, vec!["gpt-5", "sonnet-4.5"]);
}

#[test]
fn capacity_is_at_least_one() {
    assert_eq!(session_capacity(0), 1);
    assert_eq!(session_capacity(1000), 1000);
}
