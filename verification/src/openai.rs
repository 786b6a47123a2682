//! OpenAI request/response conversion: extract the user message, build the
//! completion response and the streamed chunks.

use vstd::prelude::*;
use vstd::slice::slice_to_vec;

use crate::cursor::{CompletionOutput, OutputView};
use crate::json::{get_str, str_field, Json};
use crate::text::{owned_text, slice_text, chars_of, concat, join, join_chars, lines, split_lines, str_eq, string_from_chars, trim, trim_chars, views};

verus! {

/// OpenAI-style message (from request body).
#[derive(Debug)]
pub struct ChatMessage {
    pub role: String,
    pub content: Option<Json>,
}

/// Request body for POST /v1/chat/completions.
/// `max_tokens` (and `temperature`, which the HTTP layer accepts too) are
/// taken for API compatibility; cursor-agent uses its own defaults.
#[derive(Debug)]
pub struct ChatCompletionRequest {
    pub model: Option<String>,
    pub messages: Vec<ChatMessage>,
    pub stream: Option<bool>,
    pub max_tokens: Option<u32>,
}

/// The text of one content part: an object whose `type` is `"text"` gives its `text`.
pub open spec fn part_text(c: Json) -> Option<Seq<char>> {
    match c {
        Json::Object(_) => if str_field(c, "type"@) == Some("text"@) {
            str_field(c, "text"@)
        } else {
            None
        },
        _ => None,
    }
}

/// The texts of the text parts of a content array, in order.
pub open spec fn text_parts(items: Seq<Json>) -> Seq<Seq<char>>
    decreases items.len(),
{
    if items.len() == 0 {
        Seq::empty()
    } else {
        text_parts(items.drop_last()) + match part_text(items.last()) {
            Some(t) => seq![t],
            None => Seq::empty(),
        }
    }
}

/// The text of a message's content: a string, or an array of parts (their
/// texts joined by newlines); no text for anything else.
pub open spec fn content_text(c: Option<Json>) -> Option<Seq<char>> {
    match c {
        Some(Json::Str(s)) => Some(s@),
        Some(Json::Array(items)) => Some(join(text_parts(items@), "\n"@)),
        _ => None,
    }
}

/// The text a message contributes when it is a user message with text content.
pub open spec fn message_text(m: ChatMessage) -> Option<Seq<char>> {
    if m.role@ != "user"@ {
        None
    } else {
        content_text(m.content)
    }
}

/// The text of the last message that contributes one; empty if none does.
pub open spec fn last_user_text(ms: Seq<ChatMessage>) -> Seq<char>
    decreases ms.len(),
{
    if ms.len() == 0 {
        Seq::empty()
    } else {
        match message_text(ms.last()) {
            Some(t) => t,
            None => last_user_text(ms.drop_last()),
        }
    }
}

/// The texts of content parts, in order.
pub fn content_part_texts(items: &Vec<Json>) -> (r: Vec<Vec<char>>)
    ensures
        views(r@) == text_parts(items@),
{
    let mut out: Vec<Vec<char>> = Vec::new();
    let mut i: usize = 0;
    assert(items@.take(0) =~= Seq::<Json>::empty());
    while i < items.len()
        invariant
            i <= items@.len(),
            views(out@) == text_parts(items@.take(i as int)),
        decreases items@.len() - i,
    {
        let ghost before = views(out@);
        assert(items@.take(i + 1).drop_last() =~= items@.take(i as int));
        assert(items@.take(i + 1).last() == items@[i as int]);
        let item = &items[i];
        let mut taken = false;
        match item {
            Json::Object(_) => {
                let is_text = match get_str(item, "type") {
                    Some(t) => str_eq(t.as_str(), "text"),
                    None => false,
                };
                if is_text {
                    match get_str(item, "text") {
                        Some(t) => {
                            out.push(chars_of(t.as_str()));
                            assert(views(out@) =~= before + seq![t@]);
                            taken = true;
                        },
                        None => {},
                    }
                }
            },
            _ => {},
        }
        if !taken {
            assert(views(out@) =~= before + Seq::<Seq<char>>::empty());
        }
        i = i + 1;
    }
    assert(items@.take(items@.len() as int) =~= items@);
    out
}

/// The text of a message's content, as characters.
pub fn content_chars(c: &Option<Json>) -> (r: Option<Vec<char>>)
    ensures
        match r {
            Some(t) => content_text(*c) == Some(t@),
            None => content_text(*c) is None,
        },
{
    match c {
        Some(Json::Str(s)) => Some(chars_of(s.as_str())),
        Some(Json::Array(items)) => {
            let parts = content_part_texts(items);
            let nl = chars_of("\n");
            Some(join_chars(&parts, nl.as_slice()))
        },
        _ => None,
    }
}

/// The label a role gets in a synthesized prompt: `System`, `User`,
/// `Assistant`, `Tool result`, or the role itself for any other role.
pub open spec fn role_label(role: Seq<char>) -> Seq<char> {
    if role == "system"@ {
        "System"@
    } else if role == "user"@ {
        "User"@
    } else if role == "assistant"@ {
        "Assistant"@
    } else if role == "tool"@ {
        "Tool result"@
    } else {
        role
    }
}

/// The segment a message gives in a synthesized prompt: its role label, `": "`
/// and its text; messages whose content has no text give none.
pub open spec fn message_segment(m: ChatMessage) -> Option<Seq<char>> {
    match content_text(m.content) {
        Some(t) => Some(role_label(m.role@) + ": "@ + t),
        None => None,
    }
}

/// The segments of a conversation, in order.
pub open spec fn segments(ms: Seq<ChatMessage>) -> Seq<Seq<char>>
    decreases ms.len(),
{
    if ms.len() == 0 {
        Seq::empty()
    } else {
        segments(ms.drop_last()) + match message_segment(ms.last()) {
            Some(t) => seq![t],
            None => Seq::empty(),
        }
    }
}

/// The whole conversation as one prompt: the segments separated by a rule.
pub open spec fn conversation_prompt(ms: Seq<ChatMessage>) -> Seq<char> {
    join(segments(ms), "\n\n---\n\n"@)
}

fn role_label_chars(role: &str) -> (r: Vec<char>)
    ensures
        r@ == role_label(role@),
{
    if str_eq(role, "system") {
        chars_of("System")
    } else if str_eq(role, "user") {
        chars_of("User")
    } else if str_eq(role, "assistant") {
        chars_of("Assistant")
    } else if str_eq(role, "tool") {
        chars_of("Tool result")
    } else {
        chars_of(role)
    }
}

/// Synthesizes a conversation into one prompt for cursor-agent, which takes
/// a single prompt: each message with text becomes `Role: text` (`System`,
/// `User`, `Assistant`, `Tool result`), and the parts are separated by
/// `---` lines.
pub fn format_messages_as_prompt(messages: &[ChatMessage]) -> (r: String)
    ensures
        r@ == conversation_prompt(messages@),
{
    let mut parts: Vec<Vec<char>> = Vec::new();
    let mut i: usize = 0;
    assert(messages@.take(0) =~= Seq::<ChatMessage>::empty());
    while i < messages.len()
        invariant
            i <= messages@.len(),
            views(parts@) == segments(messages@.take(i as int)),
        decreases messages@.len() - i,
    {
        let ghost before = views(parts@);
        assert(messages@.take(i + 1).drop_last() =~= messages@.take(i as int));
        assert(messages@.take(i + 1).last() == messages@[i as int]);
        let m = &messages[i];
        match content_chars(&m.content) {
            Some(t) => {
                let mut seg = role_label_chars(m.role.as_str());
                let colon = chars_of(": ");
                seg.extend_from_slice(colon.as_slice());
                seg.extend_from_slice(t.as_slice());
                assert(seg@ =~= role_label(m.role@) + ": "@ + t@);
                parts.push(seg);
                assert(views(parts@) =~= before + seq![role_label(m.role@) + ": "@ + t@]);
            },
            None => {
                assert(views(parts@) =~= before + Seq::<Seq<char>>::empty());
            },
        }
        i = i + 1;
    }
    assert(messages@.take(messages@.len() as int) =~= messages@);
    let sep = chars_of("\n\n---\n\n");
    let joined = join_chars(&parts, sep.as_slice());
    string_from_chars(joined.as_slice())
}

/// Extracts the last user message as plain text (for cursor-agent stdin).
/// Content can be a string or an array of `{ type: "text", text: "..." }` parts.
pub fn extract_user_message(messages: &[ChatMessage]) -> (r: String)
    ensures
        r@ == last_user_text(messages@),
{
    let mut i: usize = messages.len();
    assert(messages@.take(i as int) =~= messages@);
    while i > 0
        invariant
            i <= messages@.len(),
            last_user_text(messages@) == last_user_text(messages@.take(i as int)),
        decreases i,
    {
        let m = &messages[i - 1];
        assert(messages@.take(i as int).drop_last() =~= messages@.take(i - 1));
        assert(messages@.take(i as int).last() == messages@[i - 1]);
        if str_eq(m.role.as_str(), "user") {
            match content_chars(&m.content) {
                Some(t) => {
                    return string_from_chars(t.as_slice());
                },
                None => {},
            }
        }
        i = i - 1;
    }
    String::new()
}

/// The message that cursor-agent gets is decided by the last user message
/// that has text: messages of other roles after it change nothing, and a
/// later user message with string content replaces it.
pub proof fn law_last_user_message_wins(ms: Seq<ChatMessage>, m: ChatMessage)
    ensures
        m.role@ != "user"@ ==> last_user_text(ms.push(m)) == last_user_text(ms),
        m.role@ == "user"@ ==> (m.content matches Some(Json::Str(s)) ==> last_user_text(ms.push(m))
            == s@),
{
    assert(ms.push(m).drop_last() =~= ms);
}

/// Non-stream response: single JSON object.
#[derive(Debug)]
pub struct ChatCompletionResponse {
    pub id: String,
    pub object: String,
    pub created: u64,
    pub model: String,
    pub choices: Vec<Choice>,
    pub usage: Usage,
}

#[derive(Debug)]
pub struct Choice {
    pub index: u32,
    pub message: Message,
    pub finish_reason: String,
}

#[derive(Debug)]
pub struct Message {
    pub role: String,
    pub content: String,
}

#[derive(Debug)]
pub struct Usage {
    pub prompt_tokens: u32,
    pub completion_tokens: u32,
    pub total_tokens: u32,
}

/// Each line prefixed with `"> "`.
pub open spec fn quote_lines(ls: Seq<Seq<char>>) -> Seq<Seq<char>> {
    ls.map_values(|l: Seq<char>| "> "@ + l)
}

/// The thinking text as a quoted block: trimmed, each line prefixed with
/// `"> "`, lines joined by newlines.
pub open spec fn thinking_block(t: Seq<char>) -> Seq<char> {
    join(quote_lines(lines(trim(t))), "\n"@)
}

/// The message content of a non-stream response: with the thinking block,
/// a rule and the content when thinking is included and not empty; else the
/// content alone.
pub open spec fn response_content(o: OutputView, include_thinking: bool) -> Seq<char> {
    if include_thinking && o.thinking.len() > 0 {
        "> 💭 "@ + thinking_block(o.thinking) + "\n\n---\n\n"@ + o.content
    } else {
        o.content
    }
}

/// Renders the thinking text as a quoted block.
pub fn quoted_thinking(t: &str) -> (r: Vec<char>)
    ensures
        r@ == thinking_block(t@),
{
    let cs = chars_of(t);
    let trimmed = trim_chars(cs.as_slice());
    let ls = split_lines(trimmed.as_slice());
    let prefix = chars_of("> ");
    let mut quoted: Vec<Vec<char>> = Vec::new();
    let mut i: usize = 0;
    while i < ls.len()
        invariant
            i <= ls@.len(),
            views(ls@) == lines(trim(t@)),
            prefix@ == "> "@,
            views(quoted@) =~= quote_lines(views(ls@).take(i as int)),
        decreases ls@.len() - i,
    {
        let mut q = slice_to_vec(prefix.as_slice());
        q.extend_from_slice(ls[i].as_slice());
        assert(q@ =~= "> "@ + ls@[i as int]@);
        let ghost before = quoted@;
        quoted.push(q);
        assert(views(quoted@) =~= views(before).push("> "@ + ls@[i as int]@));
        assert(views(ls@).take(i + 1) =~= views(ls@).take(i as int).push(ls@[i as int]@));
        i = i + 1;
    }
    assert(views(ls@).take(ls@.len() as int) =~= views(ls@));
    let nl = chars_of("\n");
    join_chars(&quoted, nl.as_slice())
}

/// Seconds since the Unix epoch, from `SystemTime::now()` (0 if the clock is
/// before the epoch). Nothing is claimed of the value: it is the clock's.
#[verifier::external_body]
fn unix_time_secs() -> u64 {
    std::time::SystemTime::now().duration_since(std::time::UNIX_EPOCH).unwrap_or_default().as_secs()
}

/// Builds the non-stream response for a given creation time.
pub fn completion_response_at(
    id: &str,
    model: &str,
    out: &CompletionOutput,
    include_thinking_in_content: bool,
    created: u64,
) -> (r: ChatCompletionResponse)
    ensures
        r.id@ == id@,
        r.object@ == "chat.completion"@,
        r.created == created,
        r.model@ == model@,
        r.choices@.len() == 1,
        r.choices@[0].index == 0,
        r.choices@[0].message.role@ == "assistant"@,
        r.choices@[0].message.content@ == response_content(out@, include_thinking_in_content),
        r.choices@[0].finish_reason@ == out.finish_reason@,
        r.usage.prompt_tokens == 0 && r.usage.completion_tokens == 0 && r.usage.total_tokens == 0,
{
    let content = if include_thinking_in_content && !out.thinking_text.as_str().is_empty() {
        let block = quoted_thinking(out.thinking_text.as_str());
        let mut all = chars_of("> 💭 ");
        all.extend_from_slice(block.as_slice());
        let rule = chars_of("\n\n---\n\n");
        all.extend_from_slice(rule.as_slice());
        let body = chars_of(out.content.as_str());
        all.extend_from_slice(body.as_slice());
        string_from_chars(all.as_slice())
    } else {
        out.content.clone()
    };
    let mut choices: Vec<Choice> = Vec::new();
    choices.push(
        Choice {
            index: 0,
            message: Message { role: "assistant".to_owned(), content },
            finish_reason: out.finish_reason.clone(),
        },
    );
    ChatCompletionResponse {
        id: id.to_owned(),
        object: "chat.completion".to_owned(),
        created,
        model: model.to_owned(),
        choices,
        usage: Usage { prompt_tokens: 0, completion_tokens: 0, total_tokens: 0 },
    }
}

/// Builds the non-stream response from a completion output, stamped with the
/// current time.
pub fn build_completion_response(
    id: &str,
    model: &str,
    out: &CompletionOutput,
    include_thinking_in_content: bool,
) -> (r: ChatCompletionResponse)
    ensures
        r.id@ == id@,
        r.object@ == "chat.completion"@,
        r.model@ == model@,
        r.choices@.len() == 1,
        r.choices@[0].index == 0,
        r.choices@[0].message.role@ == "assistant"@,
        r.choices@[0].message.content@ == response_content(out@, include_thinking_in_content),
        r.choices@[0].finish_reason@ == out.finish_reason@,
        r.usage.prompt_tokens == 0 && r.usage.completion_tokens == 0 && r.usage.total_tokens == 0,
{
    let created = unix_time_secs();
    completion_response_at(id, model, out, include_thinking_in_content, created)
}

/// SSE chunk for streaming (OpenAI format).
#[derive(Debug)]
pub struct StreamChunk {
    pub id: String,
    pub object: String,
    pub created: u64,
    pub model: String,
    pub choices: Vec<StreamChoice>,
}

#[derive(Debug)]
pub struct StreamChoice {
    pub index: u32,
    pub delta: StreamDelta,
    pub finish_reason: Option<String>,
}

#[derive(Debug)]
pub struct StreamDelta {
    pub content: Option<String>,
}

fn to_owned_opt(o: Option<&str>) -> (r: Option<String>)
    ensures
        owned_text(r) == slice_text(o),
{
    match o {
        Some(s) => Some(s.to_owned()),
        None => None,
    }
}

/// Builds one streamed chunk for a given creation time.
pub fn stream_chunk_at(
    id: &str,
    model: &str,
    content: Option<&str>,
    finish_reason: Option<&str>,
    created: u64,
) -> (r: StreamChunk)
    ensures
        r.id@ == id@,
        r.object@ == "chat.completion.chunk"@,
        r.created == created,
        r.model@ == model@,
        r.choices@.len() == 1,
        r.choices@[0].index == 0,
        owned_text(r.choices@[0].delta.content) == slice_text(content),
        owned_text(r.choices@[0].finish_reason) == slice_text(finish_reason),
{
    let mut choices: Vec<StreamChoice> = Vec::new();
    choices.push(
        StreamChoice {
            index: 0,
            delta: StreamDelta { content: to_owned_opt(content) },
            finish_reason: to_owned_opt(finish_reason),
        },
    );
    StreamChunk {
        id: id.to_owned(),
        object: "chat.completion.chunk".to_owned(),
        created,
        model: model.to_owned(),
        choices,
    }
}

/// Builds one streamed chunk, stamped with the current time.
pub fn stream_chunk(id: &str, model: &str, content: Option<&str>, finish_reason: Option<&str>) -> (r:
    StreamChunk)
    ensures
        r.id@ == id@,
        r.object@ == "chat.completion.chunk"@,
        r.model@ == model@,
        r.choices@.len() == 1,
        r.choices@[0].index == 0,
        owned_text(r.choices@[0].delta.content) == slice_text(content),
        owned_text(r.choices@[0].finish_reason) == slice_text(finish_reason),
{
    let created = unix_time_secs();
    stream_chunk_at(id, model, content, finish_reason, created)
}

/// Frames one serialized chunk as an SSE data line.
pub fn sse_frame(json: &str) -> (r: String)
    ensures
        r@ == "data: "@ + json@ + "\n\n"@,
{
    let head = concat("data: ", json);
    concat(head.as_str(), "\n\n")
}

/// SSE end marker.
pub fn sse_done() -> (r: &'static str)
    ensures
        r@ == "data: [DONE]\n\n"@,
{
    "data: [DONE]\n\n"
}

} // verus!
