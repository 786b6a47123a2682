use ironclaw_cursor_brain::config::{
    config_from_sources, cursor_search_paths_unix, cursor_search_paths_windows, default_models_list,
    default_session_file_path, config_file_path, config_file_path_in, detect_from, home_dir, home_or_current,
    session_file_path, which_output_path, Config, EnvSettings,
    DEFAULT_PORT, DEFAULT_REQUEST_TIMEOUT_SEC, DEFAULT_SESSION_CACHE_MAX, DEFAULT_SESSION_HEADER_NAME,
};
use ironclaw_cursor_brain::text::parse_u64;

fn no_env() -> EnvSettings {
    EnvSettings {
        cursor_path: None,
        port: None,
        port_alias: None,
        request_timeout_sec: None,
        session_cache_max: None,
        session_header_name: None,
        default_model: None,
        fallback_model: None,
    }
}

#[test]
fn defaults_without_file_or_env() {
    let c = config_from_sources(None, &no_env());
    assert_eq!(c.cursor_path, None);
    assert_eq!(c.port, DEFAULT_PORT);
    assert_eq!(c.port, 3001);
    assert_eq!(c.request_timeout_sec, DEFAULT_REQUEST_TIMEOUT_SEC);
    assert_eq!(c.request_timeout_sec, 300);
    assert_eq!(c.session_cache_max, DEFAULT_SESSION_CACHE_MAX);
    assert_eq!(c.session_cache_max, 1000);
    assert_eq!(c.session_header_name, DEFAULT_SESSION_HEADER_NAME);
    assert_eq!(c.session_header_name, "x-session-id");
    assert_eq!(c.default_model, None);
    assert_eq!(c.fallback_model, None);
}

#[test]
fn file_values_are_clamped() {
    let file = r#"{"cursor_path":"/opt/agent","port":70000,"request_timeout_sec":0,
        "session_cache_max":5000000,"session_header_name":"X-Conv","default_model":"gpt-5","fallback_model":""}"#;
    let c = config_from_sources(Some(file), &no_env());
    assert_eq!(c.cursor_path.as_deref(), Some("/opt/agent"));
    assert_eq!(c.port, 65535);
    assert_eq!(c.request_timeout_sec, 1);
    assert_eq!(c.session_cache_max, 1_000_000);
    assert_eq!(c.session_header_name, "X-Conv");
    assert_eq!(c.default_model.as_deref(), Some("gpt-5"));
    assert_eq!(c.fallback_model, None);
    let c0 = config_from_sources(Some(r#"{"port":0,"session_cache_max":0}"#), &no_env());
    assert_eq!(c0.port, 1);
    assert_eq!(c0.session_cache_max, 1);
}

#[test]
fn environment_overrides_file() {
    let file = r#"{"cursor_path":"/file/agent","port":4000,"request_timeout_sec":20,"session_cache_max":30,"session_header_name":"X-File","default_model":"f","fallback_model":"g"}"#;
    let env = EnvSettings {
        cursor_path: Some("/env/agent".into()),
        port: Some("5000".into()),
        port_alias: Some("6000".into()),
        request_timeout_sec: Some("0".into()),
        session_cache_max: Some("+42".into()),
        session_header_name: Some("X-Env".into()),
        default_model: Some("em".into()),
        fallback_model: Some("ef".into()),
    };
    let c = config_from_sources(Some(file), &env);
    assert_eq!(c.cursor_path.as_deref(), Some("/env/agent"));
    assert_eq!(c.port, 5000);
    assert_eq!(c.request_timeout_sec, 1);
    assert_eq!(c.session_cache_max, 42);
    assert_eq!(c.session_header_name, "X-Env");
    assert_eq!(c.default_model.as_deref(), Some("em"));
    assert_eq!(c.fallback_model.as_deref(), Some("ef"));
}

#[test]
fn unusable_environment_values_fall_back() {
    let file = r#"{"port":4000,"request_timeout_sec":20,"session_cache_max":30,"cursor_path":""}"#;
    let mut env = no_env();
    env.cursor_path = Some(String::new());
    env.port = Some("70000".into());
    env.port_alias = Some("6000".into());
    env.request_timeout_sec = Some("ten".into());
    env.session_cache_max = Some("-5".into());
    env.session_header_name = Some(String::new());
    let c = config_from_sources(Some(file), &env);
    assert_eq!(c.cursor_path.as_deref(), Some(""));
    assert_eq!(c.port, 4000);
    assert_eq!(c.request_timeout_sec, 20);
    assert_eq!(c.session_cache_max, 30);
    assert_eq!(c.session_header_name, "x-session-id");
}

#[test]
fn port_alias_used_when_port_unset() {
    let mut env = no_env();
    env.port_alias = Some("6000".into());
    assert_eq!(config_from_sources(None, &env).port, 6000);
    env.port = Some("0".into());
    assert_eq!(config_from_sources(None, &env).port, 0);
}

#[test]
fn invalid_file_is_ignored() {
    let c = config_from_sources(Some("{not json"), &no_env());
    assert_eq!(c.port, 3001);
    let c2 = config_from_sources(Some("[1,2]"), &no_env());
    assert_eq!(c2.request_timeout_sec, 300);
    let c3 = config_from_sources(Some(r#"{"port":"4000","request_timeout_sec":-3}"#), &no_env());
    assert_eq!(c3.port, 3001);
    assert_eq!(c3.request_timeout_sec, 300);
}

#[test]
fn parses_unsigned_like_std() {
    for s in ["0", "42", "+7", "007", "18446744073709551615", "18446744073709551616", "", "+", "-1", " 1", "1 ", "1_0", "abc"] {
        assert_eq!(parse_u64(s), s.parse::<u64>().ok(), "input {:?}", s);
    }
}

fn config_with_path(p: Option<&str>) -> Config {
    let mut c = config_from_sources(None, &no_env());
    c.cursor_path = p.map(String::from);
    c
}

#[test]
fn resolve_prefers_existing_configured_path() {
    let c = config_with_path(Some("/bin/agent"));
    assert_eq!(
        c.resolve_cursor_path(|_p: &String| true, || panic!("lookup must not run"), || panic!("search must not run")),
        Some("/bin/agent".to_string())
    );
    // configured path absent: detection, here through the lookup
    assert_eq!(
        c.resolve_cursor_path(|p: &String| p == "/found", || Some("/found\n".to_string()), Vec::new),
        Some("/found".to_string())
    );
    // empty configured path: detection, here through the search paths
    let empty = config_with_path(Some(""));
    assert_eq!(empty.resolve_cursor_path(|_p: &String| true, || None, Vec::new), None);
    assert_eq!(
        empty.resolve_cursor_path(|_p: &String| true, || None, || vec!["/s/agent".to_string()]),
        Some("/s/agent".to_string())
    );
    let none = config_with_path(None);
    assert_eq!(
        none.resolve_cursor_path(|_p: &String| true, || Some("/d\n".to_string()), || vec!["/s/agent".to_string()]),
        Some("/d".to_string())
    );
}

#[test]
fn session_and_config_file_paths() {
    let p = default_session_file_path();
    assert!(p.ends_with("cursor-brain-sessions.json"));
    assert!(p.contains(".ironclaw"));
    let c = config_file_path();
    assert!(c.ends_with("cursor-brain.json"));
    let expected = std::path::Path::new(&home_or_current(dirs::home_dir().map(|h| h.to_string_lossy().into_owned())))
        .join(".ironclaw")
        .join("cursor-brain-sessions.json");
    assert_eq!(p, expected.to_string_lossy());
}

#[test]
fn home_fallback_is_current_dir() {
    assert_eq!(home_or_current(None), ".");
    assert_eq!(home_or_current(Some("/home/u".into())), "/home/u");
}

#[test]
fn search_paths() {
    let u = cursor_search_paths_unix("/home/u");
    assert_eq!(u.len(), 3);
    assert!(u[0].ends_with("agent") && u[0].contains(".local") && u[0].starts_with("/home/u"));
    assert_eq!(u[1], "/usr/local/bin/agent");
    assert!(u[2].contains(".cursor"));
    let w = cursor_search_paths_windows("/home/u", Some("/lad"));
    assert_eq!(w.len(), 5);
    assert!(w[0].starts_with("/lad") && w[0].ends_with("agent.exe") && w[0].contains("resources"));
    assert!(w[1].starts_with("/lad") && w[1].ends_with("agent.cmd"));
    assert!(w[4].starts_with("/home/u") && w[4].ends_with("agent.exe"));
    let w2 = cursor_search_paths_windows("/home/u", None);
    assert!(w2[0].contains("AppData") && w2[0].contains("Local"));
}

#[test]
fn which_output_first_line() {
    assert_eq!(which_output_path("/usr/bin/agent\n/other/agent\n"), Some("/usr/bin/agent".to_string()));
    assert_eq!(which_output_path("  C:\\a\\agent.exe \r\n"), Some("C:\\a\\agent.exe".to_string()));
    assert_eq!(which_output_path(""), None);
    assert_eq!(which_output_path("   \n/x\n"), Some(String::new()));
}

#[test]
fn default_models() {
    assert_eq!(default_models_list(), vec!["auto", "cursor-default"]);
}

#[test]
fn paths_under_a_home() {
    let sep = std::path::MAIN_SEPARATOR;
    assert_eq!(session_file_path("/home/u"), format!("/home/u{sep}.ironclaw{sep}cursor-brain-sessions.json"));
    assert_eq!(session_file_path("/home/u/"), format!("/home/u/.ironclaw{sep}cursor-brain-sessions.json"));
    assert_eq!(config_file_path_in("."), format!(".{sep}.ironclaw{sep}cursor-brain.json"));
    assert!(!home_dir().is_empty());
    assert_eq!(default_session_file_path(), session_file_path(&home_dir()));
}

#[test]
fn detection_decision() {
    let cands = vec!["/a/agent".to_string(), "".to_string(), "/b/agent".to_string()];
    // lookup printed a present path
    assert_eq!(detect_from(Some("/w/agent\n"), &cands, |_p: &String| true), Some("/w/agent".to_string()));
    // lookup printed nothing, or an empty line: the candidates are searched
    assert_eq!(detect_from(Some(""), &cands, |_p: &String| true), Some("/a/agent".to_string()));
    assert_eq!(detect_from(Some("  \n"), &cands, |p: &String| p == "/b/agent"), Some("/b/agent".to_string()));
    assert_eq!(detect_from(Some(""), &cands, |_p: &String| false), None);
    // lookup path absent: first present candidate
    assert_eq!(detect_from(Some("/w/agent\n"), &cands, |p: &String| p == "/b/agent"), Some("/b/agent".to_string()));
    assert_eq!(detect_from(None, &cands, |p: &String| p != "/a/agent"), Some("/b/agent".to_string()));
    assert_eq!(detect_from(None, &cands, |_p: &String| false), None);
}
