//! The cursor-agent side: the arguments it is started with, the stream-json
//! events it prints, how they fold into a completion or a stream of deltas,
//! and how its model list is read.

use vstd::prelude::*;

use crate::json::{field, get_field, get_str, json_parse, opt_view, parse_json, str_field, Json};
use crate::text::{
    chars_eq_ascii_ci, chars_of, concat, eq_ascii_ci, ends_with_ascii_ci, is_white, is_whitespace, join,
    join_chars, lines, split_lines, str_eq, string_from_chars, trim, trim_chars, trim_str, views, owned_text, slice_text,
};
use vstd::slice::slice_subrange;

verus! {

/// Parsed stream-json event from cursor-agent stdout.
#[derive(Debug, Clone)]
pub enum CursorEvent {
    SessionId(String),
    Thinking { text: String },
    Text(String),
    Result(String),
    ToolCall { subtype: String, tool: String },
}

/// A cursor event with its strings taken as character sequences.
pub enum EventView {
    SessionId(Seq<char>),
    Thinking(Seq<char>),
    Text(Seq<char>),
    Result(Seq<char>),
    ToolCall(Seq<char>, Seq<char>),
}

impl View for CursorEvent {
    type V = EventView;

    open spec fn view(&self) -> EventView {
        match self {
            CursorEvent::SessionId(s) => EventView::SessionId(s@),
            CursorEvent::Thinking { text } => EventView::Thinking(text@),
            CursorEvent::Text(s) => EventView::Text(s@),
            CursorEvent::Result(s) => EventView::Result(s@),
            CursorEvent::ToolCall { subtype, tool } => EventView::ToolCall(subtype@, tool@),
        }
    }
}

/// The view of an optional event.
pub open spec fn event_opt(e: Option<CursorEvent>) -> Option<EventView> {
    match e {
        Some(x) => Some(x@),
        None => None,
    }
}

/// The text of an optional string, or the empty text.
pub open spec fn or_empty(o: Option<Seq<char>>) -> Seq<char> {
    match o {
        Some(s) => s,
        None => Seq::empty(),
    }
}

/// The event that one parsed stream-json object stands for.
pub open spec fn event_of(v: Json) -> Option<EventView> {
    match str_field(v, "type"@) {
        None => None,
        Some(ty) => if ty == "session_id"@ {
            match str_field(v, "session_id"@) {
                Some(s) => Some(EventView::SessionId(s)),
                None => None,
            }
        } else if ty == "thinking"@ {
            let text = or_empty(str_field(v, "text"@));
            if text.len() == 0 && str_field(v, "subtype"@) != Some("completed"@) {
                None
            } else {
                Some(EventView::Thinking(text))
            }
        } else if ty == "text"@ {
            match str_field(v, "text"@) {
                Some(s) => Some(EventView::Text(s)),
                None => None,
            }
        } else if ty == "result"@ {
            match str_field(v, "result"@) {
                Some(s) => Some(EventView::Result(s)),
                None => None,
            }
        } else if ty == "tool_call"@ {
            match field(v, "tool_call"@) {
                Some(Json::Object(fs)) => Some(
                    EventView::ToolCall(
                        or_empty(str_field(v, "subtype"@)),
                        if fs@.len() > 0 {
                            fs@[0].0@
                        } else {
                            Seq::empty()
                        },
                    ),
                ),
                _ => None,
            }
        } else {
            None
        },
    }
}

/// The event that one line of stream-json output stands for.
pub open spec fn line_event(line: Seq<char>) -> Option<EventView> {
    let t = trim(line);
    if t.len() == 0 {
        None
    } else {
        match json_parse(t) {
            Some(v) => event_of(v),
            None => None,
        }
    }
}

fn clone_or_empty(o: Option<&String>) -> (r: String)
    ensures
        r@ == or_empty(opt_view(o)),
{
    match o {
        Some(s) => s.clone(),
        None => String::new(),
    }
}

/// Reads one parsed stream-json object as an event.
pub fn event_from_json(v: &Json) -> (r: Option<CursorEvent>)
    ensures
        event_opt(r) == event_of(*v),
{
    let ty = match get_str(v, "type") {
        Some(t) => t,
        None => return None,
    };
    if str_eq(ty.as_str(), "session_id") {
        match get_str(v, "session_id") {
            Some(s) => Some(CursorEvent::SessionId(s.clone())),
            None => None,
        }
    } else if str_eq(ty.as_str(), "thinking") {
        let text = clone_or_empty(get_str(v, "text"));
        let completed = match get_str(v, "subtype") {
            Some(s) => str_eq(s.as_str(), "completed"),
            None => false,
        };
        if text.as_str().is_empty() && !completed {
            None
        } else {
            Some(CursorEvent::Thinking { text })
        }
    } else if str_eq(ty.as_str(), "text") {
        match get_str(v, "text") {
            Some(s) => Some(CursorEvent::Text(s.clone())),
            None => None,
        }
    } else if str_eq(ty.as_str(), "result") {
        match get_str(v, "result") {
            Some(s) => Some(CursorEvent::Result(s.clone())),
            None => None,
        }
    } else if str_eq(ty.as_str(), "tool_call") {
        match get_field(v, "tool_call") {
            Some(Json::Object(fs)) => {
                let subtype = clone_or_empty(get_str(v, "subtype"));
                let tool = if fs.len() > 0 {
                    fs[0].0.clone()
                } else {
                    String::new()
                };
                Some(CursorEvent::ToolCall { subtype, tool })
            },
            _ => None,
        }
    } else {
        None
    }
}

/// Parses one line of stream-json; `None` if it is blank, not valid JSON,
/// or not an event of interest.
pub fn parse_stream_json_line(line: &str) -> (r: Option<CursorEvent>)
    ensures
        event_opt(r) == line_event(line@),
{
    let t = trim_str(line);
    if t.as_str().is_empty() {
        return None;
    }
    match parse_json(t.as_str()) {
        Some(v) => event_from_json(&v),
        None => None,
    }
}

/// Result of a non-stream completion: content + finish_reason.
#[derive(Debug)]
pub struct CompletionOutput {
    pub content: String,
    pub thinking_text: String,
    pub finish_reason: String,
}

/// The text fields of a completion output.
pub struct OutputView {
    pub content: Seq<char>,
    pub thinking: Seq<char>,
    pub finish_reason: Seq<char>,
}

impl View for CompletionOutput {
    type V = OutputView;

    open spec fn view(&self) -> OutputView {
        OutputView {
            content: self.content@,
            thinking: self.thinking_text@,
            finish_reason: self.finish_reason@,
        }
    }
}

/// How one event changes a completion being collected: text is appended to
/// the content, a result replaces the content, thinking is appended to the
/// thinking text; session ids and tool calls change nothing.
pub open spec fn step(o: OutputView, e: EventView) -> OutputView {
    match e {
        EventView::Text(s) => OutputView { content: o.content + s, ..o },
        EventView::Result(s) => OutputView { content: s, ..o },
        EventView::Thinking(t) => OutputView { thinking: o.thinking + t, ..o },
        _ => o,
    }
}

/// The session id an event reports, if any.
pub open spec fn session_of(e: EventView) -> Option<Seq<char>> {
    match e {
        EventView::SessionId(s) => Some(s),
        _ => None,
    }
}

impl Default for CompletionOutput {
    fn default() -> (r: Self)
        ensures
            r.content@ == Seq::<char>::empty(),
            r.thinking_text@ == Seq::<char>::empty(),
            r.finish_reason@ == Seq::<char>::empty(),
    {
        CompletionOutput { content: String::new(), thinking_text: String::new(), finish_reason: String::new() }
    }
}

impl CompletionOutput {
    /// An empty output whose finish reason is `"stop"`, as a run starts.
    pub fn begin() -> (r: Self)
        ensures
            r.content@ == Seq::<char>::empty(),
            r.thinking_text@ == Seq::<char>::empty(),
            r.finish_reason@ == "stop"@,
    {
        CompletionOutput { content: String::new(), thinking_text: String::new(), finish_reason: "stop".to_owned() }
    }

    /// True when the run produced neither content nor thinking text.
    pub fn is_empty(&self) -> (b: bool)
        ensures
            b == (self.content@.len() == 0 && self.thinking_text@.len() == 0),
    {
        self.content.as_str().is_empty() && self.thinking_text.as_str().is_empty()
    }

    /// Folds one event into the output; returns the session id it reports.
    pub fn absorb(&mut self, ev: CursorEvent) -> (sid: Option<String>)
        ensures
            final(self)@ == step(old(self)@, ev@),
            owned_text(sid) == session_of(ev@),
    {
        match ev {
            CursorEvent::Text(s) => {
                self.content.append(s.as_str());
                None
            },
            CursorEvent::Result(s) => {
                self.content = s;
                None
            },
            CursorEvent::Thinking { text } => {
                self.thinking_text.append(text.as_str());
                None
            },
            CursorEvent::SessionId(s) => Some(s),
            CursorEvent::ToolCall { .. } => None,
        }
    }

    /// Parses one stdout line and folds its event, if any, into the output;
    /// returns the session id the line reports.
    pub fn absorb_line(&mut self, line: &str) -> (sid: Option<String>)
        ensures
            final(self)@ == (match line_event(line@) {
                Some(e) => step(old(self)@, e),
                None => old(self)@,
            }),
            owned_text(sid) == (match line_event(line@) {
                Some(e) => session_of(e),
                None => None,
            }),
    {
        match parse_stream_json_line(line) {
            Some(ev) => self.absorb(ev),
            None => None,
        }
    }
}

/// The output after folding a sequence of events, one after another.
pub open spec fn fold_events(o: OutputView, evs: Seq<EventView>) -> OutputView
    decreases evs.len(),
{
    if evs.len() == 0 {
        o
    } else {
        step(fold_events(o, evs.drop_last()), evs.last())
    }
}

/// The text that `text` events carry, concatenated; `None` if a `result` occurs.
pub open spec fn texts_only(evs: Seq<EventView>) -> Option<Seq<char>>
    decreases evs.len(),
{
    if evs.len() == 0 {
        Some(Seq::empty())
    } else {
        match texts_only(evs.drop_last()) {
            None => None,
            Some(t) => match evs.last() {
                EventView::Text(s) => Some(t + s),
                EventView::Result(_) => None,
                _ => Some(t),
            },
        }
    }
}

/// A `result` event decides the content: whatever was collected before, the
/// content is the result followed by the text of any `text` events after
/// it; thinking and session events never touch the content.
pub proof fn law_result_decides_content(o: OutputView, before: Seq<EventView>, s: Seq<char>, after: Seq<EventView>)
    requires
        texts_only(after) is Some,
    ensures
        fold_events(o, before.push(EventView::Result(s)) + after).content == s + texts_only(after)->Some_0,
    decreases after.len(),
{
    let all = before.push(EventView::Result(s)) + after;
    if after.len() == 0 {
        assert(all =~= before.push(EventView::Result(s)));
        assert(all.drop_last() =~= before);
        assert(s + Seq::<char>::empty() =~= s);
    } else {
        law_result_decides_content(o, before, s, after.drop_last());
        assert(all.drop_last() =~= before.push(EventView::Result(s)) + after.drop_last());
        assert(all.last() == after.last());
        match after.last() {
            EventView::Text(x) => {
                assert(s + texts_only(after.drop_last())->Some_0 + x =~= s + (texts_only(after.drop_last())->Some_0 + x));
            },
            _ => {},
        }
    }
}

/// The thinking texts of a sequence of events, concatenated in order.
pub open spec fn thinking_texts(evs: Seq<EventView>) -> Seq<char>
    decreases evs.len(),
{
    if evs.len() == 0 {
        Seq::empty()
    } else {
        thinking_texts(evs.drop_last()) + match evs.last() {
            EventView::Thinking(t) => t,
            _ => Seq::empty(),
        }
    }
}

/// Thinking accumulates: folding events leaves the thinking collected so
/// far in front of every thinking event's text, in order (an empty one, such
/// as the event that closes a thinking stream, adds nothing and erases
/// nothing); the finish reason never changes.
pub proof fn law_thinking_accumulates(o: OutputView, evs: Seq<EventView>)
    ensures
        fold_events(o, evs).thinking == o.thinking + thinking_texts(evs),
        fold_events(o, evs).finish_reason == o.finish_reason,
    decreases evs.len(),
{
    if evs.len() == 0 {
        assert(o.thinking + Seq::<char>::empty() =~= o.thinking);
    } else {
        law_thinking_accumulates(o, evs.drop_last());
        match evs.last() {
            EventView::Thinking(t) => {
                assert(o.thinking + thinking_texts(evs.drop_last()) + t =~= o.thinking + (thinking_texts(
                    evs.drop_last(),
                ) + t));
            },
            _ => {
                assert(thinking_texts(evs.drop_last()) + Seq::<char>::empty() =~= thinking_texts(
                    evs.drop_last(),
                ));
            },
        }
    }
}

/// Text accumulates: with no `result` among them, folding events appends
/// every text event's text, unchanged and in order, to the content.
pub proof fn law_text_accumulates(o: OutputView, evs: Seq<EventView>)
    requires
        texts_only(evs) is Some,
    ensures
        fold_events(o, evs).content == o.content + texts_only(evs)->Some_0,
    decreases evs.len(),
{
    if evs.len() == 0 {
        assert(o.content + Seq::<char>::empty() =~= o.content);
    } else {
        law_text_accumulates(o, evs.drop_last());
        match evs.last() {
            EventView::Text(x) => {
                assert(o.content + texts_only(evs.drop_last())->Some_0 + x =~= o.content + (texts_only(
                    evs.drop_last(),
                )->Some_0 + x));
            },
            _ => {},
        }
    }
}

/// How a stream-json object is read, by its `type` member: a `text`, a
/// `result` and a `session_id` object carry their string member exactly as
/// it is; a `thinking` object with a non-empty text is kept with that text
/// whatever its subtype, and the one whose subtype is `completed` is always
/// kept; a `tool_call` object is a tool call or nothing; any other type is
/// no event.
pub proof fn law_event_members(v: Json, s: Seq<char>)
    ensures
        str_field(v, "type"@) == Some("text"@) && str_field(v, "text"@) == Some(s) ==> event_of(v) == Some(
            EventView::Text(s),
        ),
        str_field(v, "type"@) == Some("result"@) && str_field(v, "result"@) == Some(s) ==> event_of(v)
            == Some(EventView::Result(s)),
        str_field(v, "type"@) == Some("session_id"@) && str_field(v, "session_id"@) == Some(s) ==> event_of(
            v,
        ) == Some(EventView::SessionId(s)),
        str_field(v, "type"@) == Some("thinking"@) && str_field(v, "text"@) == Some(s) && s.len() > 0
            ==> event_of(v) == Some(EventView::Thinking(s)),
        str_field(v, "type"@) == Some("thinking"@) && str_field(v, "subtype"@) == Some("completed"@) ==> event_of(
            v,
        ) is Some && event_of(v)->Some_0 is Thinking,
        str_field(v, "type"@) == Some("tool_call"@) ==> event_of(v) is None || event_of(v)->Some_0 is ToolCall,
        str_field(v, "type"@) is None ==> event_of(v) is None,
{
    reveal_strlit("text");
    reveal_strlit("result");
    reveal_strlit("session_id");
    reveal_strlit("thinking");
    reveal_strlit("tool_call");
    reveal_strlit("completed");
    assert("text"@.len() == 4 && "result"@.len() == 6 && "thinking"@.len() == 8 && "session_id"@.len() == 10);
    assert("text"@ != "session_id"@ && "text"@ != "thinking"@);
    assert("result"@ != "session_id"@ && "result"@ != "thinking"@ && "result"@ != "text"@);
}

/// The deltas a streaming run sends for a sequence of events, in order.
pub open spec fn event_deltas(evs: Seq<EventView>) -> Seq<DeltaView>
    decreases evs.len(),
{
    if evs.len() == 0 {
        Seq::empty()
    } else {
        let before = event_deltas(evs.drop_last());
        match stream_step_of(evs.last()) {
            StepView::Emit(d) => before.push(d),
            _ => before,
        }
    }
}

/// The text that a sequence of deltas shows the client: its content deltas,
/// concatenated in order.
pub open spec fn delta_text(ds: Seq<DeltaView>) -> Seq<char>
    decreases ds.len(),
{
    if ds.len() == 0 {
        Seq::empty()
    } else {
        delta_text(ds.drop_last()) + match ds.last() {
            DeltaView::Content(s) => s,
            DeltaView::Done(_) => Seq::empty(),
        }
    }
}

/// The events that carry no answer text: session ids and tool calls.
pub open spec fn quiet(e: EventView) -> bool {
    e is SessionId || e is ToolCall
}

/// A stream shows what the plain run collects: for events with no `result`
/// and no thinking, the client is sent, in content deltas only, exactly the
/// text the non-stream fold appends to the content; session ids and tool
/// calls send the client nothing at all.
pub proof fn law_stream_shows_collected_text(o: OutputView, evs: Seq<EventView>)
    requires
        forall|i: int| 0 <= i < evs.len() ==> !(#[trigger] evs[i] is Result) && !(evs[i] is Thinking),
    ensures
        fold_events(o, evs).content == o.content + delta_text(event_deltas(evs)),
        forall|i: int| 0 <= i < event_deltas(evs).len() ==> #[trigger] event_deltas(evs)[i] is Content,
        (forall|i: int| 0 <= i < evs.len() ==> quiet(#[trigger] evs[i])) ==> event_deltas(evs).len() == 0,
    decreases evs.len(),
{
    if evs.len() == 0 {
        assert(o.content + Seq::<char>::empty() =~= o.content);
    } else {
        let p = evs.drop_last();
        assert forall|i: int| 0 <= i < p.len() implies !(#[trigger] p[i] is Result) && !(p[i] is Thinking) by {
            assert(p[i] == evs[i]);
        }
        law_stream_shows_collected_text(o, p);
        assert(!(evs[evs.len() - 1] is Result) && !(evs[evs.len() - 1] is Thinking));
        if forall|i: int| 0 <= i < evs.len() ==> quiet(#[trigger] evs[i]) {
            assert forall|i: int| 0 <= i < p.len() implies quiet(#[trigger] p[i]) by {
                assert(p[i] == evs[i]);
            }
            assert(quiet(evs[evs.len() - 1]));
        }
        match evs.last() {
            EventView::Text(x) => {
                let ds = event_deltas(evs);
                assert(ds.drop_last() =~= event_deltas(p));
                assert(o.content + delta_text(event_deltas(p)) + x =~= o.content + (delta_text(event_deltas(p))
                    + x));
            },
            _ => {},
        }
    }
}

/// What each kind of event does, in a plain run and in a stream: a session
/// id changes no output, is reported by the plain run and recorded by the
/// stream; a tool call changes no output and sends nothing; a result is
/// sent as it is; a thinking text is sent as a quoted block of its trimmed
/// text, and an empty one sends nothing; only session ids report one.
pub proof fn law_event_effects(o: OutputView, e: EventView, s: Seq<char>, t: Seq<char>)
    ensures
        step(o, EventView::SessionId(s)) == o,
        session_of(EventView::SessionId(s)) == Some(s),
        stream_step_of(EventView::SessionId(s)) == StepView::Session(s),
        step(o, EventView::ToolCall(s, t)) == o,
        stream_step_of(EventView::ToolCall(s, t)) == StepView::Skip,
        stream_step_of(EventView::Result(s)) == StepView::Emit(DeltaView::Content(s)),
        t.len() > 0 ==> stream_step_of(EventView::Thinking(t)) == StepView::Emit(
            DeltaView::Content("\n\n> 💭 "@ + trim(t) + "\n\n"@),
        ),
        stream_step_of(EventView::Thinking(Seq::empty())) == StepView::Skip,
        !(e is SessionId) ==> session_of(e) is None,
{
}

/// The events that a sequence of stdout lines stands for, in order.
pub open spec fn line_events(lines: Seq<Seq<char>>) -> Seq<EventView>
    decreases lines.len(),
{
    if lines.len() == 0 {
        Seq::empty()
    } else {
        match line_event(lines.last()) {
            Some(e) => line_events(lines.drop_last()).push(e),
            None => line_events(lines.drop_last()),
        }
    }
}

/// A streaming run sends, for its lines, the deltas of the events they
/// stand for: lines that are no event send nothing.
pub proof fn law_lines_stream_their_events(lines: Seq<Seq<char>>)
    ensures
        emitted(lines) == event_deltas(line_events(lines)),
    decreases lines.len(),
{
    if lines.len() > 0 {
        law_lines_stream_their_events(lines.drop_last());
        match line_event(lines.last()) {
            Some(e) => {
                assert(line_events(lines).drop_last() =~= line_events(lines.drop_last()));
            },
            None => {},
        }
    }
}

/// Stream delta for SSE: content chunk or done.
#[derive(Debug, Clone)]
pub enum StreamDelta {
    Content(String),
    Done { finish_reason: String },
}

/// A stream delta with its text as characters.
pub enum DeltaView {
    Content(Seq<char>),
    Done(Seq<char>),
}

impl View for StreamDelta {
    type V = DeltaView;

    open spec fn view(&self) -> DeltaView {
        match self {
            StreamDelta::Content(s) => DeltaView::Content(s@),
            StreamDelta::Done { finish_reason } => DeltaView::Done(finish_reason@),
        }
    }
}

/// The delta a streaming run ends with: `Done` with reason `timeout` when the
/// run was cut off by the timeout, else `stop`.
pub open spec fn run_end_of(timed_out: bool) -> DeltaView {
    DeltaView::Done(
        if timed_out {
            "timeout"@
        } else {
            "stop"@
        },
    )
}

/// The delta a streaming run ends with.
pub fn run_end_delta(timed_out: bool) -> (d: StreamDelta)
    ensures
        d@ == run_end_of(timed_out),
{
    StreamDelta::Done { finish_reason: if timed_out {
        "timeout".to_owned()
    } else {
        "stop".to_owned()
    } }
}

/// What a streaming run does with one event.
#[derive(Debug)]
pub enum StreamStep {
    /// Send this delta to the client.
    Emit(StreamDelta),
    /// Record this cursor session id.
    Session(String),
    /// Nothing to do.
    Skip,
}

/// A stream step with its text as characters.
pub enum StepView {
    Emit(DeltaView),
    Session(Seq<char>),
    Skip,
}

impl View for StreamStep {
    type V = StepView;

    open spec fn view(&self) -> StepView {
        match self {
            StreamStep::Emit(d) => StepView::Emit(d@),
            StreamStep::Session(s) => StepView::Session(s@),
            StreamStep::Skip => StepView::Skip,
        }
    }
}

/// The content chunk that a streamed thinking text becomes.
pub open spec fn thinking_chunk(t: Seq<char>) -> Seq<char> {
    "\n\n> 💭 "@ + trim(t) + "\n\n"@
}

/// What a streaming run does with one event: text and results are sent as
/// they are, non-empty thinking is sent as a quoted block, session ids are
/// recorded, and the rest is skipped.
pub open spec fn stream_step_of(e: EventView) -> StepView {
    match e {
        EventView::Text(s) => StepView::Emit(DeltaView::Content(s)),
        EventView::Result(s) => StepView::Emit(DeltaView::Content(s)),
        EventView::Thinking(t) => if t.len() > 0 {
            StepView::Emit(DeltaView::Content(thinking_chunk(t)))
        } else {
            StepView::Skip
        },
        EventView::SessionId(s) => StepView::Session(s),
        EventView::ToolCall(_, _) => StepView::Skip,
    }
}

/// Decides what a streaming run does with one event.
pub fn stream_step(ev: CursorEvent) -> (r: StreamStep)
    ensures
        r@ == stream_step_of(ev@),
{
    match ev {
        CursorEvent::Text(s) => StreamStep::Emit(StreamDelta::Content(s)),
        CursorEvent::Result(s) => StreamStep::Emit(StreamDelta::Content(s)),
        CursorEvent::Thinking { text } => {
            if text.as_str().is_empty() {
                StreamStep::Skip
            } else {
                let body = trim_str(text.as_str());
                let head = concat("\n\n> 💭 ", body.as_str());
                StreamStep::Emit(StreamDelta::Content(concat(head.as_str(), "\n\n")))
            }
        },
        CursorEvent::SessionId(s) => StreamStep::Session(s),
        CursorEvent::ToolCall { .. } => StreamStep::Skip,
    }
}

/// What a streaming run does with one stdout line: the step of its event;
/// a line that is no event is skipped.
pub open spec fn line_step(line: Seq<char>) -> StepView {
    match line_event(line) {
        Some(e) => stream_step_of(e),
        None => StepView::Skip,
    }
}

/// Decides what a streaming run does with one stdout line.
pub fn stream_line(line: &str) -> (r: StreamStep)
    ensures
        r@ == line_step(line@),
{
    match parse_stream_json_line(line) {
        Some(ev) => stream_step(ev),
        None => StreamStep::Skip,
    }
}

/// The deltas a streaming run sends for the stdout lines it read, in order:
/// those their steps emit.
pub open spec fn emitted(lines: Seq<Seq<char>>) -> Seq<DeltaView>
    decreases lines.len(),
{
    if lines.len() == 0 {
        Seq::empty()
    } else {
        let before = emitted(lines.drop_last());
        match line_step(lines.last()) {
            StepView::Emit(d) => before.push(d),
            _ => before,
        }
    }
}

/// Everything a streaming run sends: what its lines emit, then the end delta.
pub open spec fn run_deltas(lines: Seq<Seq<char>>, timed_out: bool) -> Seq<DeltaView> {
    emitted(lines).push(run_end_of(timed_out))
}

proof fn lemma_emitted_is_content(lines: Seq<Seq<char>>)
    ensures
        forall|i: int| 0 <= i < emitted(lines).len() ==> #[trigger] emitted(lines)[i] is Content,
    decreases lines.len(),
{
    if lines.len() > 0 {
        lemma_emitted_is_content(lines.drop_last());
    }
}

/// A streaming run sends exactly one `Done`, as its last delta: every delta
/// its lines emit is content, and it ends with `timeout` when cut off by the
/// timeout, else with `stop`.
pub proof fn law_stream_ends_with_one_done(lines: Seq<Seq<char>>, timed_out: bool)
    ensures
        run_deltas(lines, timed_out).len() == emitted(lines).len() + 1,
        run_deltas(lines, timed_out).last() == run_end_of(timed_out),
        forall|i: int|
            0 <= i < run_deltas(lines, timed_out).len() ==> (#[trigger] run_deltas(lines, timed_out)[i] is Done
                <==> i == run_deltas(lines, timed_out).len() - 1),
{
    lemma_emitted_is_content(lines);
}

/// The model id handed to cursor-agent: the trimmed name, except that an
/// empty name and the aliases `cursor`, `cursor-default` and `default` (in
/// any ASCII case) become `auto`, the only generic name the agent accepts.
pub open spec fn agent_model(m: Seq<char>) -> Seq<char> {
    let t = trim(m);
    if t.len() == 0 || eq_ascii_ci(t, "cursor"@) || eq_ascii_ci(t, "cursor-default"@) || eq_ascii_ci(
        t,
        "default"@,
    ) {
        "auto"@
    } else {
        t
    }
}

/// The arguments every cursor-agent run gets.
pub open spec fn base_args() -> Seq<Seq<char>> {
    seq![
        "-p"@,
        "--output-format"@,
        "stream-json"@,
        "--stream-partial-output"@,
        "--trust"@,
        "--approve-mcps"@,
        "--force"@,
    ]
}

/// The full argument list: the base arguments, then `--model <id>` unless the
/// model maps to `auto`, then `--resume <id>` for a non-empty resume id.
pub open spec fn spec_agent_args(model: Option<Seq<char>>, resume: Option<Seq<char>>) -> Seq<
    Seq<char>,
> {
    let with_model = match model {
        Some(m) => if agent_model(m).len() > 0 && agent_model(m) != "auto"@ {
            base_args() + seq!["--model"@, agent_model(m)]
        } else {
            base_args()
        },
        None => base_args(),
    };
    match resume {
        Some(r) => if r.len() > 0 {
            with_model + seq!["--resume"@, r]
        } else {
            with_model
        },
        None => with_model,
    }
}

/// A model name that maps to `auto` (empty, or an alias such as `cursor`)
/// adds no `--model` argument; a resume id is passed exactly when it is not empty.
pub proof fn law_generic_model_adds_no_flag(m: Seq<char>, resume: Option<Seq<char>>)
    ensures
        agent_model(m) == "auto"@ ==> spec_agent_args(Some(m), resume) == spec_agent_args(None, resume),
        spec_agent_args(None, resume) == match resume {
            Some(r) => if r.len() > 0 {
                base_args() + seq!["--resume"@, r]
            } else {
                base_args()
            },
            None => base_args(),
        },
{
}

/// Maps a requested model name to the id cursor-agent is given.
pub fn model_for_agent(m: &str) -> (r: String)
    ensures
        r@ == agent_model(m@),
{
    let t = trim_str(m);
    let tc = chars_of(t.as_str());
    let c1 = chars_of("cursor");
    let c2 = chars_of("cursor-default");
    let c3 = chars_of("default");
    if t.as_str().is_empty() || chars_eq_ascii_ci(tc.as_slice(), c1.as_slice())
        || chars_eq_ascii_ci(tc.as_slice(), c2.as_slice()) || chars_eq_ascii_ci(
        tc.as_slice(),
        c3.as_slice(),
    ) {
        "auto".to_owned()
    } else {
        t
    }
}

/// The command-line arguments for one cursor-agent run.
pub fn agent_args(model: Option<&str>, resume_session_id: Option<&str>) -> (r: Vec<String>)
    ensures
        r.deep_view() == spec_agent_args(slice_text(model), slice_text(resume_session_id)),
{
    let mut args: Vec<String> = Vec::new();
    args.push("-p".to_owned());
    args.push("--output-format".to_owned());
    args.push("stream-json".to_owned());
    args.push("--stream-partial-output".to_owned());
    args.push("--trust".to_owned());
    args.push("--approve-mcps".to_owned());
    args.push("--force".to_owned());
    assert(args.deep_view() =~= base_args());
    let ghost with_model: Seq<Seq<char>>;
    match model {
        Some(m) => {
            let mapped = model_for_agent(m);
            if !mapped.as_str().is_empty() && !str_eq(mapped.as_str(), "auto") {
                let ghost before = args.deep_view();
                args.push("--model".to_owned());
                args.push(mapped);
                assert(args.deep_view() =~= before + seq!["--model"@, agent_model(m@)]);
            }
        },
        None => {},
    }
    proof {
        with_model = args.deep_view();
    }
    match resume_session_id {
        Some(r) => {
            if !r.is_empty() {
                args.push("--resume".to_owned());
                args.push(r.to_owned());
                assert(args.deep_view() =~= with_model + seq!["--resume"@, r@]);
            }
        },
        None => {},
    }
    args
}

/// Whether a cursor-agent path must be started through `cmd /C` on Windows:
/// it ends with `.cmd` or `.bat`, in any ASCII case (for these suffixes the
/// same test as on the lower-cased path).
pub fn runs_through_shell(cursor_path: &str) -> (b: bool)
    ensures
        b == (ends_with_ascii_ci(cursor_path@, ".cmd"@) || ends_with_ascii_ci(cursor_path@, ".bat"@)),
{
    let p = chars_of(cursor_path);
    let cmd = chars_of(".cmd");
    let bat = chars_of(".bat");
    let mut found = false;
    if cmd.len() <= p.len() {
        let tail = slice_subrange(p.as_slice(), p.len() - cmd.len(), p.len());
        assert(tail@ =~= p@.skip(p@.len() - cmd@.len()));
        found = chars_eq_ascii_ci(tail, cmd.as_slice());
    }
    if !found && bat.len() <= p.len() {
        let tail = slice_subrange(p.as_slice(), p.len() - bat.len(), p.len());
        assert(tail@ =~= p@.skip(p@.len() - bat@.len()));
        found = chars_eq_ascii_ci(tail, bat.as_slice());
    }
    found
}

/// The command line handed to `cmd /C`: the quoted path, a space, and the
/// arguments separated by single spaces.
pub fn shell_command_line(cursor_path: &str, args: &Vec<String>) -> (r: String)
    ensures
        r@ == "\""@ + cursor_path@ + "\" "@ + join(args.deep_view(), " "@),
{
    let mut parts: Vec<Vec<char>> = Vec::new();
    let mut i: usize = 0;
    while i < args.len()
        invariant
            i <= args@.len(),
            views(parts@) =~= args.deep_view().take(i as int),
        decreases args@.len() - i,
    {
        let ghost before = parts@;
        parts.push(chars_of(args[i].as_str()));
        assert(views(parts@) =~= views(before).push(args@[i as int]@));
        assert(args.deep_view().take(i + 1) =~= args.deep_view().take(i as int).push(args@[i as int]@));
        i = i + 1;
    }
    assert(args.deep_view().take(args@.len() as int) =~= args.deep_view());
    let sp = chars_of(" ");
    let joined = join_chars(&parts, sp.as_slice());
    let joined_s = string_from_chars(joined.as_slice());
    let head = concat("\"", cursor_path);
    let head2 = concat(head.as_str(), "\" ");
    concat(head2.as_str(), joined_s.as_str())
}

/// Characters allowed in a model id read from a listing line.
pub open spec fn is_model_char(c: char) -> bool {
    ||| ('a' <= c && c <= 'z')
    ||| ('A' <= c && c <= 'Z')
    ||| ('0' <= c && c <= '9')
    ||| c == '-'
    ||| c == '.'
    ||| c == '_'
}

/// Index of the first whitespace character of `s`, or `s.len()`.
pub open spec fn white_at(s: Seq<char>) -> nat
    decreases s.len(),
{
    if s.len() == 0 {
        0
    } else if is_white(s[0]) {
        0
    } else {
        1 + white_at(s.drop_first())
    }
}

/// The model id a listing line gives: its first word, when the trimmed line is
/// not empty, does not start a table row (`|`) or rule (`-`), and the word is
/// made of model-id characters only.
pub open spec fn line_model(l: Seq<char>) -> Option<Seq<char>> {
    let t = trim(l);
    if t.len() == 0 || t[0] == '|' || t[0] == '-' {
        None
    } else {
        let w = t.take(white_at(t) as int);
        if forall|i: int| 0 <= i < w.len() ==> is_model_char(w[i]) {
            Some(w)
        } else {
            None
        }
    }
}

/// The model ids of a sequence of listing lines, in order.
pub open spec fn line_models(ls: Seq<Seq<char>>) -> Seq<Seq<char>>
    decreases ls.len(),
{
    if ls.len() == 0 {
        Seq::empty()
    } else {
        line_models(ls.drop_last()) + match line_model(ls.last()) {
            Some(w) => seq![w],
            None => Seq::empty(),
        }
    }
}

/// The non-empty strings of a JSON array, in order.
pub open spec fn json_models(items: Seq<Json>) -> Seq<Seq<char>>
    decreases items.len(),
{
    if items.len() == 0 {
        Seq::empty()
    } else {
        json_models(items.drop_last()) + match items.last() {
            Json::Str(s) => if s@.len() > 0 {
                seq![s@]
            } else {
                Seq::empty()
            },
            _ => Seq::empty(),
        }
    }
}

/// The model ids that `agent --list-models` output lists: the non-empty
/// strings of a JSON array when the trimmed output is one and has some,
/// else one id per listing line.
pub open spec fn listed_models(out: Seq<char>) -> Seq<Seq<char>> {
    let t = trim(out);
    if t.len() == 0 {
        Seq::empty()
    } else {
        let from_json = match json_parse(t) {
            Some(Json::Array(items)) => json_models(items@),
            _ => Seq::empty(),
        };
        if from_json.len() > 0 {
            from_json
        } else {
            line_models(lines(t))
        }
    }
}

proof fn lemma_white_at(s: Seq<char>, k: int)
    requires
        0 <= k <= s.len(),
        forall|j: int| 0 <= j < k ==> !is_white(s[j]),
        k == s.len() || is_white(s[k]),
    ensures
        white_at(s) == k,
    decreases k,
{
    if k > 0 {
        lemma_white_at(s.drop_first(), k - 1);
    }
}

fn is_model_char_exec(c: char) -> (b: bool)
    ensures
        b == is_model_char(c),
{
    ('a' <= c && c <= 'z') || ('A' <= c && c <= 'Z') || ('0' <= c && c <= '9') || c == '-' || c
        == '.' || c == '_'
}

/// The model id one listing line gives, if any.
pub fn model_from_line(l: &[char]) -> (r: Option<String>)
    ensures
        owned_text(r) == line_model(l@),
{
    let t = trim_chars(l);
    if t.len() == 0 || t[0] == '|' || t[0] == '-' {
        return None;
    }
    let mut k: usize = 0;
    while k < t.len() && !is_whitespace(t[k])
        invariant
            k <= t@.len(),
            forall|j: int| 0 <= j < k ==> !is_white(t@[j]),
        decreases t@.len() - k,
    {
        k = k + 1;
    }
    proof {
        lemma_white_at(t@, k as int);
    }
    let w = slice_subrange(t.as_slice(), 0, k);
    assert(w@ =~= t@.take(k as int));
    let mut i: usize = 0;
    while i < w.len()
        invariant
            i <= w@.len(),
            t@ == trim(l@),
            t@.len() > 0,
            t@[0] != '|' && t@[0] != '-',
            w@ == t@.take(white_at(t@) as int),
            forall|j: int| 0 <= j < i ==> is_model_char(w@[j]),
        decreases w@.len() - i,
    {
        if !is_model_char_exec(w[i]) {
            assert(!is_model_char(w@[i as int]));
            return None;
        }
        i = i + 1;
    }
    Some(string_from_chars(w))
}

/// The model ids that the lines of a listing give, in order.
pub fn models_from_lines(text: &str) -> (r: Vec<String>)
    ensures
        r.deep_view() == line_models(lines(text@)),
{
    let cs = chars_of(text);
    let ls = split_lines(cs.as_slice());
    let mut out: Vec<String> = Vec::new();
    let mut i: usize = 0;
    assert(views(ls@).take(0) =~= Seq::<Seq<char>>::empty());
    while i < ls.len()
        invariant
            i <= ls@.len(),
            views(ls@) == lines(text@),
            out.deep_view() == line_models(views(ls@).take(i as int)),
        decreases ls@.len() - i,
    {
        let ghost before = out.deep_view();
        assert(views(ls@).take(i + 1).drop_last() =~= views(ls@).take(i as int));
        assert(views(ls@).take(i + 1).last() == ls@[i as int]@);
        match model_from_line(ls[i].as_slice()) {
            Some(w) => {
                out.push(w);
                assert(out.deep_view() =~= before + seq![line_model(ls@[i as int]@)->Some_0]);
            },
            None => {
                assert(out.deep_view() =~= before + Seq::<Seq<char>>::empty());
            },
        }
        i = i + 1;
    }
    assert(views(ls@).take(ls@.len() as int) =~= views(ls@));
    out
}

/// The model ids that a parsed listing gives when it is a JSON array.
pub fn models_from_json(v: &Json) -> (r: Vec<String>)
    ensures
        r.deep_view() == (match *v {
            Json::Array(items) => json_models(items@),
            _ => Seq::empty(),
        }),
{
    let mut out: Vec<String> = Vec::new();
    match v {
        Json::Array(items) => {
            let mut i: usize = 0;
            assert(items@.take(0) =~= Seq::<Json>::empty());
            while i < items.len()
                invariant
                    i <= items@.len(),
                    out.deep_view() == json_models(items@.take(i as int)),
                decreases items@.len() - i,
            {
                let ghost before = out.deep_view();
                assert(items@.take(i + 1).drop_last() =~= items@.take(i as int));
                assert(items@.take(i + 1).last() == items@[i as int]);
                match &items[i] {
                    Json::Str(s) => {
                        if !s.as_str().is_empty() {
                            out.push(s.clone());
                            assert(out.deep_view() =~= before + seq![s@]);
                        } else {
                            assert(out.deep_view() =~= before + Seq::<Seq<char>>::empty());
                        }
                    },
                    _ => {
                        assert(out.deep_view() =~= before + Seq::<Seq<char>>::empty());
                    },
                }
                i = i + 1;
            }
            assert(items@.take(items@.len() as int) =~= items@);
        },
        _ => {
            assert(out.deep_view() =~= Seq::<Seq<char>>::empty());
        },
    }
    out
}

/// Parses the stdout of `agent --list-models`: a JSON array of strings, or
/// one id per line.
pub fn parse_list_models_output(out: &str) -> (r: Vec<String>)
    ensures
        r.deep_view() == listed_models(out@),
{
    let t = trim_str(out);
    if t.as_str().is_empty() {
        let v: Vec<String> = Vec::new();
        assert(v.deep_view() =~= Seq::<Seq<char>>::empty());
        return v;
    }
    match parse_json(t.as_str()) {
        Some(v) => {
            let ids = models_from_json(&v);
            if ids.len() > 0 {
                return ids;
            }
        },
        None => {},
    }
    models_from_lines(t.as_str())
}

} // verus!
