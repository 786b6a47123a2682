use ironclaw_cursor_brain::cursor::CompletionOutput;
use ironclaw_cursor_brain::json::Json;
use ironclaw_cursor_brain::openai::{
    build_completion_response, completion_response_at, extract_user_message, format_messages_as_prompt, quoted_thinking, sse_done,
    sse_frame, stream_chunk, stream_chunk_at, ChatMessage,
};

fn msg(role: &str, content: Option<Json>) -> ChatMessage {
    ChatMessage { role: role.to_string(), content }
}

fn text_part(t: &str) -> Json {
    Json::Object(vec![
        ("type".to_string(), Json::Str("text".to_string())),
        ("text".to_string(), Json::Str(t.to_string())),
    ])
}

fn output(content: &str, thinking: &str) -> CompletionOutput {
    CompletionOutput {
        content: content.to_string(),
        thinking_text: thinking.to_string(),
        finish_reason: "stop".to_string(),
    }
}

#[test]
fn extracts_last_user_string() {
    let ms = vec![
        msg("system", Some(Json::Str("be nice".into()))),
        msg("user", Some(Json::Str("first".into()))),
        msg("assistant", Some(Json::Str("reply".into()))),
        msg("user", Some(Json::Str("second".into()))),
        msg("tool", Some(Json::Str("tool output".into()))),
    ];
    assert_eq!(extract_user_message(&ms), "second");
}

#[test]
fn extracts_and_joins_text_parts() {
    let parts = Json::Array(vec![
        text_part("line one"),
        Json::Object(vec![("type".to_string(), Json::Str("image_url".into()))]),
        Json::Str("bare".into()),
        text_part("line two"),
    ]);
    let ms = vec![msg("user", Some(parts))];
    assert_eq!(extract_user_message(&ms), "line one\nline two");
}

#[test]
fn skips_user_messages_without_text_content() {
    let ms = vec![
        msg("user", Some(Json::Str("earlier".into()))),
        msg("user", None),
        msg("user", Some(Json::Number(Some(3)))),
    ];
    assert_eq!(extract_user_message(&ms), "earlier");
    assert_eq!(extract_user_message(&[msg("assistant", Some(Json::Str("x".into())))]), "");
    assert_eq!(extract_user_message(&[]), "");
    // an array with no text parts still counts, as the empty text
    let ms2 = vec![msg("user", Some(Json::Str("a".into()))), msg("user", Some(Json::Array(vec![])))];
    assert_eq!(extract_user_message(&ms2), "");
}

#[test]
fn role_match_is_exact() {
    let ms = vec![msg("User", Some(Json::Str("x".into())))];
    assert_eq!(extract_user_message(&ms), "");
}

#[test]
fn quotes_thinking_lines() {
    assert_eq!(quoted_thinking("  a\nb\r\n\nc  \n"), vec!['>', ' ', 'a', '\n', '>', ' ', 'b', '\n', '>', ' ', '\n', '>', ' ', 'c']);
}

#[test]
fn response_with_thinking_block() {
    let r = completion_response_at("chatcmpl-1", "auto", &output("answer", "step 1\nstep 2"), true, 42);
    assert_eq!(r.id, "chatcmpl-1");
    assert_eq!(r.object, "chat.completion");
    assert_eq!(r.created, 42);
    assert_eq!(r.model, "auto");
    assert_eq!(r.choices.len(), 1);
    assert_eq!(r.choices[0].index, 0);
    assert_eq!(r.choices[0].message.role, "assistant");
    assert_eq!(r.choices[0].message.content, "> 💭 > step 1\n> step 2\n\n---\n\nanswer");
    assert_eq!(r.choices[0].finish_reason, "stop");
    assert_eq!(r.usage.prompt_tokens + r.usage.completion_tokens + r.usage.total_tokens, 0);
}

#[test]
fn response_without_thinking() {
    let r = completion_response_at("id", "m", &output("answer", "ignored"), false, 0);
    assert_eq!(r.choices[0].message.content, "answer");
    let r2 = build_completion_response("id", "m", &output("answer", ""), true);
    assert_eq!(r2.choices[0].message.content, "answer");
    assert!(r2.created > 0);
}

#[test]
fn stream_chunks() {
    let c = stream_chunk_at("id", "m", Some("hi"), None, 7);
    assert_eq!(c.object, "chat.completion.chunk");
    assert_eq!(c.created, 7);
    assert_eq!(c.choices.len(), 1);
    assert_eq!(c.choices[0].delta.content.as_deref(), Some("hi"));
    assert_eq!(c.choices[0].finish_reason, None);
    let d = stream_chunk("id", "m", None, Some("stop"));
    assert_eq!(d.choices[0].delta.content, None);
    assert_eq!(d.choices[0].finish_reason.as_deref(), Some("stop"));
}

#[test]
fn sse_framing() {
    assert_eq!(sse_frame("{\"a\":1}"), "data: {\"a\":1}\n\n");
    assert_eq!(sse_done(), "data: [DONE]\n\n");
}

#[test]
fn formats_conversation_as_prompt() {
    let ms = vec![
        msg("system", Some(Json::Str("Be brief".into()))),
        msg("user", Some(Json::Array(vec![text_part("a"), text_part("b")]))),
        msg("assistant", None),
        msg("assistant", Some(Json::Str("ok".into()))),
        msg("tool", Some(Json::Str("42".into()))),
        msg("developer", Some(Json::Str("note".into()))),
    ];
    assert_eq!(
        format_messages_as_prompt(&ms),
        "System: Be brief\n\n---\n\nUser: a\nb\n\n---\n\nAssistant: ok\n\n---\n\nTool result: 42\n\n---\n\ndeveloper: note"
    );
    assert_eq!(format_messages_as_prompt(&[]), "");
}
