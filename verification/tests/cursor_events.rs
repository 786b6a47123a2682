use ironclaw_cursor_brain::cursor::{
    agent_args, model_for_agent, run_end_delta, parse_list_models_output, parse_stream_json_line, runs_through_shell,
    shell_command_line, stream_line, stream_step, CompletionOutput, CursorEvent, StreamDelta, StreamStep,
};

fn text_of(ev: Option<CursorEvent>) -> Option<String> {
    match ev {
        Some(CursorEvent::Text(s)) => Some(s),
        _ => None,
    }
}

#[test]
fn parses_session_id_event() {
    match parse_stream_json_line(r#"{"type":"session_id","session_id":"abc-123"}"#) {
        Some(CursorEvent::SessionId(s)) => assert_eq!(s, "abc-123"),
        other => panic!("unexpected {:?}", other),
    }
}

#[test]
fn parses_text_event_with_surrounding_whitespace() {
    assert_eq!(text_of(parse_stream_json_line("   {\"type\":\"text\",\"text\":\"hello\"}  \r")), Some("hello".to_string()));
}

#[test]
fn parses_result_event() {
    match parse_stream_json_line(r#"{"type":"result","result":"final answer","duration_ms":12}"#) {
        Some(CursorEvent::Result(s)) => assert_eq!(s, "final answer"),
        other => panic!("unexpected {:?}", other),
    }
}

#[test]
fn thinking_event_rules() {
    match parse_stream_json_line(r#"{"type":"thinking","text":"pondering"}"#) {
        Some(CursorEvent::Thinking { text }) => assert_eq!(text, "pondering"),
        other => panic!("unexpected {:?}", other),
    }
    assert!(parse_stream_json_line(r#"{"type":"thinking","subtype":"delta"}"#).is_none());
    match parse_stream_json_line(r#"{"type":"thinking","subtype":"completed"}"#) {
        Some(CursorEvent::Thinking { text }) => assert_eq!(text, ""),
        other => panic!("unexpected {:?}", other),
    }
}

#[test]
fn tool_call_event_takes_first_key() {
    match parse_stream_json_line(r#"{"type":"tool_call","subtype":"started","tool_call":{"readToolCall":{"path":"x"}}}"#) {
        Some(CursorEvent::ToolCall { subtype, tool }) => {
            assert_eq!(subtype, "started");
            assert_eq!(tool, "readToolCall");
        }
        other => panic!("unexpected {:?}", other),
    }
    assert!(parse_stream_json_line(r#"{"type":"tool_call","tool_call":"nope"}"#).is_none());
}

#[test]
fn ignores_blank_invalid_and_unknown_lines() {
    assert!(parse_stream_json_line("").is_none());
    assert!(parse_stream_json_line("   \t ").is_none());
    assert!(parse_stream_json_line("not json").is_none());
    assert!(parse_stream_json_line(r#"{"type":"system","subtype":"init"}"#).is_none());
    assert!(parse_stream_json_line(r#"{"text":"no type"}"#).is_none());
    assert!(parse_stream_json_line(r#"{"type":"text","text":5}"#).is_none());
    assert!(parse_stream_json_line(r#"["type","text"]"#).is_none());
}

#[test]
fn output_folds_text_result_and_thinking() {
    let mut out = CompletionOutput::begin();
    assert_eq!(out.finish_reason, "stop");
    assert!(out.is_empty());
    assert_eq!(out.absorb_line(r#"{"type":"session_id","session_id":"s1"}"#), Some("s1".to_string()));
    assert_eq!(out.absorb_line(r#"{"type":"text","text":"Hel"}"#), None);
    out.absorb_line(r#"{"type":"text","text":"lo"}"#);
    out.absorb_line(r#"{"type":"thinking","text":"hmm"}"#);
    assert_eq!(out.content, "Hello");
    assert_eq!(out.thinking_text, "hmm");
    out.absorb_line(r#"{"type":"result","result":"Hello world"}"#);
    assert_eq!(out.content, "Hello world");
    out.absorb_line(r#"{"type":"text","text":"!"}"#);
    assert_eq!(out.content, "Hello world!");
    assert!(!out.is_empty());
}

#[test]
fn output_thinking_alone_is_not_empty() {
    let mut out = CompletionOutput::begin();
    out.absorb(CursorEvent::Thinking { text: "x".to_string() });
    assert!(!out.is_empty());
    assert_eq!(out.content, "");
}

#[test]
fn stream_steps_for_lines() {
    match stream_line(r#"{"type":"text","text":"abc"}"#) {
        StreamStep::Emit(StreamDelta::Content(s)) => assert_eq!(s, "abc"),
        other => panic!("unexpected {:?}", other),
    }
    match stream_line(r#"{"type":"result","result":"done"}"#) {
        StreamStep::Emit(StreamDelta::Content(s)) => assert_eq!(s, "done"),
        other => panic!("unexpected {:?}", other),
    }
    match stream_line(r#"{"type":"session_id","session_id":"z"}"#) {
        StreamStep::Session(s) => assert_eq!(s, "z"),
        other => panic!("unexpected {:?}", other),
    }
    assert!(matches!(stream_line("garbage"), StreamStep::Skip));
    assert!(matches!(stream_line(r#"{"type":"thinking","subtype":"completed"}"#), StreamStep::Skip));
}

#[test]
fn stream_thinking_is_quoted_and_trimmed() {
    match stream_step(CursorEvent::Thinking { text: "  deep thought \n".to_string() }) {
        StreamStep::Emit(StreamDelta::Content(s)) => assert_eq!(s, "\n\n> 💭 deep thought\n\n"),
        other => panic!("unexpected {:?}", other),
    }
}

#[test]
fn model_aliases_map_to_auto() {
    assert_eq!(model_for_agent("cursor"), "auto");
    assert_eq!(model_for_agent("Cursor-Default"), "auto");
    assert_eq!(model_for_agent("  DEFAULT "), "auto");
    assert_eq!(model_for_agent(""), "auto");
    assert_eq!(model_for_agent("   "), "auto");
    assert_eq!(model_for_agent(" composer-1.5 "), "composer-1.5");
    assert_eq!(model_for_agent("auto"), "auto");
}

#[test]
fn agent_args_base_model_and_resume() {
    let base = vec!["-p", "--output-format", "stream-json", "--stream-partial-output", "--trust", "--approve-mcps", "--force"];
    assert_eq!(agent_args(None, None), base);
    assert_eq!(agent_args(Some("cursor-default"), Some("")), base);
    let mut with_model = base.clone();
    with_model.extend(["--model", "gpt-5"]);
    assert_eq!(agent_args(Some(" gpt-5 "), None), with_model);
    let mut with_resume = base.clone();
    with_resume.extend(["--resume", "sess-9"]);
    assert_eq!(agent_args(Some("auto"), Some("sess-9")), with_resume);
    let mut both = with_model.clone();
    both.extend(["--resume", "r"]);
    assert_eq!(agent_args(Some("gpt-5"), Some("r")), both);
    // only the exact id `auto` is left out; other cases of it are passed on
    let mut upper = base.clone();
    upper.extend(["--model", "Auto"]);
    assert_eq!(agent_args(Some("Auto"), None), upper);
}

#[test]
fn shell_detection_by_suffix() {
    assert!(runs_through_shell(r"C:\tools\agent.cmd"));
    assert!(runs_through_shell(r"C:\tools\AGENT.BAT"));
    assert!(runs_through_shell(".Cmd"));
    assert!(!runs_through_shell(r"C:\tools\agent.exe"));
    assert!(!runs_through_shell("cmd"));
    assert!(!runs_through_shell(""));
}

#[test]
fn shell_command_line_quotes_path() {
    let args = vec!["-p".to_string(), "--list-models".to_string()];
    assert_eq!(shell_command_line(r"C:\a b\agent.cmd", &args), "\"C:\\a b\\agent.cmd\" -p --list-models");
    assert_eq!(shell_command_line("x", &Vec::new()), "\"x\" ");
}

#[test]
fn list_models_from_json_array() {
    assert_eq!(parse_list_models_output(" [\"auto\", \"\", 3, \"gpt-5\"] \n"), vec!["auto", "gpt-5"]);
}

#[test]
fn list_models_from_lines() {
    let out = "Available models\n| id | name |\n------\ncomposer-1.5  Composer\n\n  gpt-5 (default)\r\nsonnet-4.5\n";
    assert_eq!(parse_list_models_output(out), vec!["Available", "composer-1.5", "gpt-5", "sonnet-4.5"]);
}

#[test]
fn list_models_empty_cases() {
    assert!(parse_list_models_output("").is_empty());
    assert!(parse_list_models_output("  \n ").is_empty());
    assert!(parse_list_models_output("[]").is_empty());
    // a JSON array with no usable strings falls back to lines, which give nothing here
    assert!(parse_list_models_output("[1, 2]").is_empty());
    assert_eq!(parse_list_models_output("{\"a\":1}"), Vec::<String>::new());
}

#[test]
fn stream_run_end_reasons() {
    assert!(matches!(run_end_delta(true), StreamDelta::Done { ref finish_reason } if finish_reason == "timeout"));
    assert!(matches!(run_end_delta(false), StreamDelta::Done { ref finish_reason } if finish_reason == "stop"));
}

#[test]
fn stream_run_sends_one_done_last() {
    let lines = [
        r#"{"type":"session_id","session_id":"s1"}"#,
        r#"{"type":"text","text":"a"}"#,
        "not json",
        r#"{"type":"thinking","text":" hm "}"#,
        r#"{"type":"result","result":"b"}"#,
    ];
    for timed_out in [false, true] {
        let mut sent: Vec<StreamDelta> = Vec::new();
        for l in lines.iter() {
            if let StreamStep::Emit(d) = stream_line(l) {
                sent.push(d);
            }
        }
        sent.push(run_end_delta(timed_out));
        let dones = sent.iter().filter(|d| matches!(d, StreamDelta::Done { .. })).count();
        assert_eq!(dones, 1);
        assert_eq!(sent.len(), 4);
        assert!(matches!(sent.last(), Some(StreamDelta::Done { .. })));
        assert!(matches!(&sent[1], StreamDelta::Content(c) if c == "\n\n> 💭 hm\n\n"));
    }
}
