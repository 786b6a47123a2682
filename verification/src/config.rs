//! Configuration: cursor_path, port, request_timeout_sec, session cache and
//! header settings. Values come from the optional file
//! `~/.ironclaw/cursor-brain.json`, then environment variables, which win.

use vstd::prelude::*;

use crate::json::{get_str, get_u64, json_parse, opt_view, parse_json, str_field, u64_field, Json};
use crate::text::{owned_text, slice_text, chars_of, lines, parse_bounded, parse_u64, split_lines, string_from_chars, trim, trim_chars};

verus! {

/// Default port (Ironclaw Web Gateway 3000 + 1).
pub const DEFAULT_PORT: u16 = 3001;

/// Default request timeout in seconds.
pub const DEFAULT_REQUEST_TIMEOUT_SEC: u64 = 300;

/// Default session cache capacity (LRU).
pub const DEFAULT_SESSION_CACHE_MAX: u32 = 1000;

/// Largest session cache capacity a setting can ask for.
pub const MAX_SESSION_CACHE: u32 = 1_000_000;

/// Default HTTP header name for external session id (case-insensitive).
pub const DEFAULT_SESSION_HEADER_NAME: &'static str = "x-session-id";

/// Default model ids returned by GET /v1/models when cursor-agent --list-models fails or is unavailable.
pub fn default_models_list() -> (r: Vec<&'static str>)
    ensures
        r@.len() == 2,
        r@[0]@ == "auto"@,
        r@[1]@ == "cursor-default"@,
{
    let mut v: Vec<&'static str> = Vec::new();
    v.push("auto");
    v.push("cursor-default");
    v
}

/// The user's home directory from `dirs::home_dir`, as text (lossily, where it
/// is not valid Unicode). Claimed: a directory found is never empty (on Unix
/// an empty `HOME` is passed over and an empty password-database home gives
/// none; on Windows it is the profile folder's path). Which directory it is
/// depends on the environment and is not stated.
#[verifier::external_body]
fn dirs_home_dir() -> (r: Option<String>)
    ensures
        r matches Some(h) ==> h@.len() > 0,
{
    dirs::home_dir().map(|p| p.to_string_lossy().into_owned())
}

/// The home directory found, or `"."` when there is none.
pub fn home_or_current(found: Option<String>) -> (r: String)
    ensures
        r@ == (match found {
            Some(h) => h@,
            None => "."@,
        }),
{
    match found {
        Some(h) => h,
        None => ".".to_owned(),
    }
}

/// Resolve the user home directory the way Ironclaw does (dirs crate); `"."`
/// when it cannot be found. Never empty.
pub fn home_dir() -> (r: String)
    ensures
        r@.len() > 0,
{
    let found = dirs_home_dir();
    proof {
        reveal_strlit(".");
    }
    home_or_current(found)
}

/// A path separator: `/`, or `\` (Windows' main separator).
pub open spec fn is_sep(c: char) -> bool {
    c == '/' || c == '\\'
}

/// `s` ends with `t`.
pub open spec fn ends_with(s: Seq<char>, t: Seq<char>) -> bool {
    t.len() <= s.len() && s.skip(s.len() - t.len()) == t
}

/// `r` is `base` followed by `name`: with one separator between them, or
/// directly when `base` is empty or already ends with a separator (or, on
/// Windows, a drive colon).
pub open spec fn joined(base: Seq<char>, name: Seq<char>, r: Seq<char>) -> bool {
    ||| r == base + name && (base.len() == 0 || is_sep(base.last()) || base.last() == ':')
    ||| base.len() > 0 && exists|c: char| is_sep(c) && r == base + seq![c] + name
}

/// A Windows verbatim path (`\\?\...`), which `Path::join` normalizes.
pub open spec fn verbatim(p: Seq<char>) -> bool {
    p.len() >= 4 && p[0] == '\\' && p[1] == '\\' && p[2] == '?' && p[3] == '\\'
}

/// What joining `name` onto `base` gives, as far as it is stated: a path
/// ending with `name`, longer than it when `base` is not empty, and for a
/// base that is not a verbatim path exactly `base`, the separator if one is
/// needed, then `name`.
pub open spec fn join_of(base: Seq<char>, name: Seq<char>, r: Seq<char>) -> bool {
    &&& ends_with(r, name)
    &&& base.len() > 0 ==> r.len() > name.len()
    &&& !verbatim(base) ==> joined(base, name, r)
}

/// `.` or `..`: a reference to the current or the parent directory.
pub open spec fn dot_component(name: Seq<char>) -> bool {
    ||| name.len() == 1 && name[0] == '.'
    ||| name.len() == 2 && name[0] == '.' && name[1] == '.'
}

/// A single plain path component: non-empty, not `.` or `..`, with no
/// separator or drive colon.
pub open spec fn plain_component(name: Seq<char>) -> bool {
    &&& name.len() > 0
    &&& !dot_component(name)
    &&& forall|i: int| 0 <= i < name.len() ==> name[i] != '/' && name[i] != '\\' && name[i] != ':'
}

/// `Path::new(base).join(name)` as text. Claimed, for a plain component
/// `name` (not `.` or `..`, which a verbatim base drops), from the
/// documentation of `Path::join`, `PathBuf::push` and `MAIN_SEPARATOR`: the path is extended with `name`, so it ends with it;
/// for a base that is not a Windows verbatim path, the platform's separator
/// (`/`, or `\` on Windows) goes between unless the base is empty or ends
/// with a separator or drive colon. Which of the two separators is not
/// stated (it is the platform's), nor how a verbatim base is normalized.
#[verifier::external_body]
fn path_join(base: &str, name: &str) -> (r: String)
    requires
        plain_component(name@),
    ensures
        join_of(base@, name@, r@),
{
    std::path::Path::new(base).join(name).to_string_lossy().into_owned()
}

/// `r` is the session file under `home`: `<home>/.ironclaw/cursor-brain-sessions.json`.
pub open spec fn session_path_of(home: Seq<char>, r: Seq<char>) -> bool {
    path_chain(home, seq![".ironclaw"@, "cursor-brain-sessions.json"@], r)
}

/// `r` is the config file under `home`: `<home>/.ironclaw/cursor-brain.json`.
pub open spec fn config_path_of(home: Seq<char>, r: Seq<char>) -> bool {
    path_chain(home, seq![".ironclaw"@, "cursor-brain.json"@], r)
}

/// The session persistence file under a given home directory.
pub fn session_file_path(home: &str) -> (r: String)
    ensures
        session_path_of(home@, r@),
{
    proof {
        reveal_strlit(".ironclaw");
        reveal_strlit("cursor-brain-sessions.json");
    }
    let mut names: Vec<&str> = Vec::new();
    names.push(".ironclaw");
    names.push("cursor-brain-sessions.json");
    assert(slice_views(names@) =~= seq![".ironclaw"@, "cursor-brain-sessions.json"@]);
    join_names(home, &names)
}

/// The optional config file under a given home directory.
pub fn config_file_path_in(home: &str) -> (r: String)
    ensures
        config_path_of(home@, r@),
{
    proof {
        reveal_strlit(".ironclaw");
        reveal_strlit("cursor-brain.json");
    }
    let mut names: Vec<&str> = Vec::new();
    names.push(".ironclaw");
    names.push("cursor-brain.json");
    assert(slice_views(names@) =~= seq![".ironclaw"@, "cursor-brain.json"@]);
    join_names(home, &names)
}

/// Default session persistence file path under the Ironclaw config directory
/// (not configurable): the session file under the (non-empty) home directory.
pub fn default_session_file_path() -> (r: String)
    ensures
        exists|home: Seq<char>| home.len() > 0 && #[trigger] session_path_of(home, r@),
{
    let home = home_dir();
    session_file_path(home.as_str())
}

/// The optional config file path, `~/.ironclaw/cursor-brain.json`: the config
/// file under the (non-empty) home directory.
pub fn config_file_path() -> (r: String)
    ensures
        exists|home: Seq<char>| home.len() > 0 && #[trigger] config_path_of(home, r@),
{
    let home = home_dir();
    config_file_path_in(home.as_str())
}

#[derive(Clone, Debug)]
pub struct Config {
    /// Path to cursor-agent executable; empty means detect from PATH or fixed paths.
    pub cursor_path: Option<String>,
    /// Listen port.
    pub port: u16,
    /// Per-request timeout in seconds.
    pub request_timeout_sec: u64,
    /// Max number of session mappings to keep (LRU eviction).
    pub session_cache_max: u32,
    /// Header name for external session id (e.g. X-Session-Id).
    pub session_header_name: String,
    /// When request omits model, use this if set; else "auto".
    pub default_model: Option<String>,
    /// When primary model returns no content, retry once with this model if set.
    pub fallback_model: Option<String>,
}

/// A configuration with its strings as characters.
pub struct ConfigView {
    pub cursor_path: Option<Seq<char>>,
    pub port: u16,
    pub request_timeout_sec: u64,
    pub session_cache_max: u32,
    pub session_header_name: Seq<char>,
    pub default_model: Option<Seq<char>>,
    pub fallback_model: Option<Seq<char>>,
}

impl View for Config {
    type V = ConfigView;

    open spec fn view(&self) -> ConfigView {
        ConfigView {
            cursor_path: owned_text(self.cursor_path),
            port: self.port,
            request_timeout_sec: self.request_timeout_sec,
            session_cache_max: self.session_cache_max,
            session_header_name: self.session_header_name@,
            default_model: owned_text(self.default_model),
            fallback_model: owned_text(self.fallback_model),
        }
    }
}

/// `r` is the cursor-agent path resolved from the configured path, a
/// `which`/`where` lookup and the fixed search paths: a path it gives is
/// non-empty and reported present; it is the configured path when that is
/// non-empty and reported present, else what detection picks from one
/// output of `lookup` and one list from `search_paths`.
pub open spec fn resolved<E, L, S>(
    configured: Option<Seq<char>>,
    path_exists: E,
    lookup: L,
    search_paths: S,
    r: Option<Seq<char>>,
) -> bool where
    E: Fn(&String) -> bool,
    L: FnOnce() -> Option<String>,
    S: FnOnce() -> Vec<String>,
 {
    &&& r matches Some(q) ==> q.len() > 0 && reported_present(path_exists, q)
    &&& {
        ||| configured matches Some(p) && p.len() > 0 && reported_present(path_exists, p) && r == Some(p)
        ||| path_unusable(path_exists, configured) && exists|out: Option<String>, cs: Vec<String>|
            #[trigger] lookup.ensures((), out) && #[trigger] search_paths.ensures((), cs) && detected(
                path_exists,
                owned_text(out),
                path_views(cs@),
                r,
            )
    }
}

impl Config {
    /// Resolve cursor_path: the configured path when it is non-empty and
    /// `path_exists` reports it present; else detection (`detect_from`) over
    /// what `lookup` gives (the output of a `which`/`where` lookup that ran
    /// and succeeded) and the fixed `search_paths`, which are only asked for
    /// in that case.
    pub fn resolve_cursor_path<E, L, S>(&self, path_exists: E, lookup: L, search_paths: S) -> (r: Option<String>) where
        E: Fn(&String) -> bool,
        L: FnOnce() -> Option<String>,
        S: FnOnce() -> Vec<String>,

        requires
            forall|p: &String| path_exists.requires((p,)),
            lookup.requires(()),
            search_paths.requires(()),
        ensures
            resolved(self@.cursor_path, path_exists, lookup, search_paths, owned_text(r)),
    {
        match &self.cursor_path {
            Some(p) => {
                if !p.as_str().is_empty() {
                    if path_exists(p) {
                        return Some(p.clone());
                    }
                    assert(reported_absent(path_exists, p@));
                }
            },
            None => {},
        }
        let out = lookup();
        let cs = search_paths();
        let printed: Option<&str> = match &out {
            Some(o) => Some(o.as_str()),
            None => None,
        };
        assert(slice_text(printed) == owned_text(out));
        detect_from(printed, &cs, path_exists)
    }
}

/// The environment variables the configuration reads, as found (`None` when
/// unset or not valid Unicode).
#[derive(Clone, Debug)]
pub struct EnvSettings {
    /// `CURSOR_PATH`
    pub cursor_path: Option<String>,
    /// `PORT`
    pub port: Option<String>,
    /// `IRONCLAW_CURSOR_BRAIN_PORT`, read when `PORT` is not set
    pub port_alias: Option<String>,
    /// `REQUEST_TIMEOUT_SEC`
    pub request_timeout_sec: Option<String>,
    /// `SESSION_CACHE_MAX`
    pub session_cache_max: Option<String>,
    /// `SESSION_HEADER_NAME`
    pub session_header_name: Option<String>,
    /// `CURSOR_BRAIN_DEFAULT_MODEL`
    pub default_model: Option<String>,
    /// `CURSOR_BRAIN_FALLBACK_MODEL`
    pub fallback_model: Option<String>,
}

/// A text that is present and not empty.
pub open spec fn non_empty(o: Option<Seq<char>>) -> Option<Seq<char>> {
    match o {
        Some(s) => if s.len() > 0 {
            Some(s)
        } else {
            None
        },
        None => None,
    }
}

/// A string member of the config file.
pub open spec fn file_str(file: Option<Json>, key: Seq<char>) -> Option<Seq<char>> {
    match file {
        Some(v) => str_field(v, key),
        None => None,
    }
}

/// An integer member of the config file.
pub open spec fn file_u64(file: Option<Json>, key: Seq<char>) -> Option<u64> {
    match file {
        Some(v) => u64_field(v, key),
        None => None,
    }
}

/// `x` clamped into `lo..=hi`.
pub open spec fn clamp(x: int, lo: int, hi: int) -> int {
    if x < lo {
        lo
    } else if x > hi {
        hi
    } else {
        x
    }
}

/// The text of the port variable: `PORT`, or the alias when `PORT` is not set.
pub open spec fn env_port_text(env: EnvSettings) -> Option<Seq<char>> {
    match env.port {
        Some(p) => Some(p@),
        None => owned_text(env.port_alias),
    }
}

/// A variable's text parsed as an unsigned integer no larger than `max`.
pub open spec fn env_number(text: Option<Seq<char>>, max: nat) -> Option<nat> {
    match text {
        Some(t) => parse_bounded(t, max),
        None => None,
    }
}

/// The cursor-agent path: a non-empty `CURSOR_PATH`, else the file's string
/// (even empty), else none.
pub open spec fn spec_cursor_path(file: Option<Json>, env: EnvSettings) -> Option<Seq<char>> {
    match non_empty(owned_text(env.cursor_path)) {
        Some(s) => Some(s),
        None => file_str(file, "cursor_path"@),
    }
}

/// The port: a `PORT` (or alias) that parses as `u16`, else the file's
/// number clamped into `1..=65535`, else the default.
pub open spec fn spec_port(file: Option<Json>, env: EnvSettings) -> u16 {
    match env_number(env_port_text(env), u16::MAX as nat) {
        Some(n) => n as u16,
        None => match file_u64(file, "port"@) {
            Some(p) => clamp(p as int, 1, 65535) as u16,
            None => DEFAULT_PORT,
        },
    }
}

/// The request timeout: the variable or else the file's number, raised to at
/// least 1, else the default.
pub open spec fn spec_timeout(file: Option<Json>, env: EnvSettings) -> u64 {
    match env_number(owned_text(env.request_timeout_sec), u64::MAX as nat) {
        Some(n) => if n < 1 {
            1
        } else {
            n as u64
        },
        None => match file_u64(file, "request_timeout_sec"@) {
            Some(t) => if t < 1 {
                1
            } else {
                t
            },
            None => DEFAULT_REQUEST_TIMEOUT_SEC,
        },
    }
}

/// The session cache capacity: the variable (a `u32`) or else the file's
/// number, clamped into `1..=1_000_000`, else the default.
pub open spec fn spec_cache_max(file: Option<Json>, env: EnvSettings) -> u32 {
    match env_number(owned_text(env.session_cache_max), u32::MAX as nat) {
        Some(n) => clamp(n as int, 1, MAX_SESSION_CACHE as int) as u32,
        None => match file_u64(file, "session_cache_max"@) {
            Some(n) => clamp(n as int, 1, MAX_SESSION_CACHE as int) as u32,
            None => DEFAULT_SESSION_CACHE_MAX,
        },
    }
}

/// A text setting: a non-empty variable, else a non-empty file string.
pub open spec fn spec_text_setting(file: Option<Json>, key: Seq<char>, env_value: Option<String>) -> Option<
    Seq<char>,
> {
    match non_empty(owned_text(env_value)) {
        Some(s) => Some(s),
        None => non_empty(file_str(file, key)),
    }
}

/// The configuration that a parsed config file (if any) and the environment give.
pub open spec fn spec_config(file: Option<Json>, env: EnvSettings) -> ConfigView {
    ConfigView {
        cursor_path: spec_cursor_path(file, env),
        port: spec_port(file, env),
        request_timeout_sec: spec_timeout(file, env),
        session_cache_max: spec_cache_max(file, env),
        session_header_name: match spec_text_setting(file, "session_header_name"@, env.session_header_name) {
            Some(s) => s,
            None => DEFAULT_SESSION_HEADER_NAME@,
        },
        default_model: spec_text_setting(file, "default_model"@, env.default_model),
        fallback_model: spec_text_setting(file, "fallback_model"@, env.fallback_model),
    }
}

/// The view of an optional reference to a parsed file.
pub open spec fn json_opt(o: Option<&Json>) -> Option<Json> {
    match o {
        Some(v) => Some(*v),
        None => None,
    }
}

fn env_text(o: &Option<String>) -> (r: Option<&String>)
    ensures
        opt_view(r) == owned_text(*o),
{
    match o {
        Some(s) => Some(s),
        None => None,
    }
}

fn non_empty_owned(o: Option<&String>) -> (r: Option<String>)
    ensures
        owned_text(r) == non_empty(opt_view(o)),
{
    match o {
        Some(s) => if s.as_str().is_empty() {
            None
        } else {
            Some(s.clone())
        },
        None => None,
    }
}

fn file_get_str<'a>(file: Option<&'a Json>, key: &str) -> (r: Option<&'a String>)
    ensures
        opt_view(r) == file_str(json_opt(file), key@),
{
    match file {
        Some(v) => get_str(v, key),
        None => None,
    }
}

fn file_get_u64(file: Option<&Json>, key: &str) -> (r: Option<u64>)
    ensures
        r == file_u64(json_opt(file), key@),
{
    match file {
        Some(v) => get_u64(v, key),
        None => None,
    }
}

fn text_setting(file: Option<&Json>, key: &str, env_value: &Option<String>) -> (r: Option<String>)
    ensures
        owned_text(r) == spec_text_setting(json_opt(file), key@, *env_value),
{
    match non_empty_owned(env_text(env_value)) {
        Some(s) => Some(s),
        None => non_empty_owned(file_get_str(file, key)),
    }
}

fn env_parse(text: Option<&String>, max: u64) -> (r: Option<u64>)
    ensures
        match env_number(opt_view(text), max as nat) {
            Some(n) => r == Some(n as u64),
            None => r is None,
        },
{
    match text {
        Some(t) => match parse_u64(t.as_str()) {
            Some(n) => if n <= max {
                Some(n)
            } else {
                None
            },
            None => None,
        },
        None => None,
    }
}

/// Merges a parsed config file (if any) with the environment; the
/// environment wins where it gives a usable value.
pub fn config_from_parts(file: Option<&Json>, env: &EnvSettings) -> (c: Config)
    ensures
        c@ == spec_config(json_opt(file), *env),
{
    let cursor_path = match non_empty_owned(env_text(&env.cursor_path)) {
        Some(s) => Some(s),
        None => match file_get_str(file, "cursor_path") {
            Some(s) => Some(s.clone()),
            None => None,
        },
    };
    let port_text = match &env.port {
        Some(p) => Some(p),
        None => env_text(&env.port_alias),
    };
    let port: u16 = match env_parse(port_text, 65535) {
        Some(n) => n as u16,
        None => match file_get_u64(file, "port") {
            Some(p) => if p < 1 {
                1
            } else if p > 65535 {
                65535
            } else {
                p as u16
            },
            None => DEFAULT_PORT,
        },
    };
    let request_timeout_sec: u64 = match env_parse(env_text(&env.request_timeout_sec), u64::MAX) {
        Some(n) => if n < 1 {
            1
        } else {
            n
        },
        None => match file_get_u64(file, "request_timeout_sec") {
            Some(t) => if t < 1 {
                1
            } else {
                t
            },
            None => DEFAULT_REQUEST_TIMEOUT_SEC,
        },
    };
    let cache_n: Option<u64> = match env_parse(env_text(&env.session_cache_max), 4294967295) {
        Some(n) => Some(n),
        None => file_get_u64(file, "session_cache_max"),
    };
    let session_cache_max: u32 = match cache_n {
        Some(n) => if n < 1 {
            1
        } else if n > 1_000_000 {
            MAX_SESSION_CACHE
        } else {
            n as u32
        },
        None => DEFAULT_SESSION_CACHE_MAX,
    };
    let session_header_name = match text_setting(file, "session_header_name", &env.session_header_name) {
        Some(s) => s,
        None => DEFAULT_SESSION_HEADER_NAME.to_owned(),
    };
    let default_model = text_setting(file, "default_model", &env.default_model);
    let fallback_model = text_setting(file, "fallback_model", &env.fallback_model);
    Config {
        cursor_path,
        port,
        request_timeout_sec,
        session_cache_max,
        session_header_name,
        default_model,
        fallback_model,
    }
}

/// The parsed config file, if its text was read and parses.
pub open spec fn parsed_file(file_text: Option<Seq<char>>) -> Option<Json> {
    match file_text {
        Some(t) => json_parse(t),
        None => None,
    }
}

/// Builds the configuration from the config file's text (`None` when the
/// file is absent or unreadable) and the environment. The timeout is always
/// at least 1 and the cache capacity within `1..=1_000_000`.
pub fn config_from_sources(file_text: Option<&str>, env: &EnvSettings) -> (c: Config)
    ensures
        c@ == spec_config(
            parsed_file(
                match file_text {
                    Some(t) => Some(t@),
                    None => None,
                },
            ),
            *env,
        ),
        c.request_timeout_sec >= 1,
        1 <= c.session_cache_max <= MAX_SESSION_CACHE,
{
    let parsed = match file_text {
        Some(t) => parse_json(t),
        None => None,
    };
    let c = match &parsed {
        Some(v) => config_from_parts(Some(v), env),
        None => config_from_parts(None, env),
    };
    c
}

/// Environment overrides file: whenever a variable gives a usable value, the
/// setting is that value, whatever the config file holds.
pub proof fn law_env_overrides_file(file: Option<Json>, env: EnvSettings)
    ensures
        non_empty(owned_text(env.cursor_path)) is Some ==> spec_config(file, env).cursor_path
            == non_empty(owned_text(env.cursor_path)),
        env_number(env_port_text(env), u16::MAX as nat) is Some ==> spec_config(file, env).port
            == env_number(env_port_text(env), u16::MAX as nat)->Some_0,
        env_number(owned_text(env.request_timeout_sec), u64::MAX as nat) matches Some(n) ==> spec_config(
            file,
            env,
        ).request_timeout_sec == if n < 1 {
            1
        } else {
            n
        },
        env_number(owned_text(env.session_cache_max), u32::MAX as nat) matches Some(n) ==> spec_config(
            file,
            env,
        ).session_cache_max == clamp(n as int, 1, MAX_SESSION_CACHE as int),
        non_empty(owned_text(env.session_header_name)) matches Some(h) ==> spec_config(
            file,
            env,
        ).session_header_name == h,
        non_empty(owned_text(env.default_model)) is Some ==> spec_config(file, env).default_model
            == non_empty(owned_text(env.default_model)),
        non_empty(owned_text(env.fallback_model)) is Some ==> spec_config(file, env).fallback_model
            == non_empty(owned_text(env.fallback_model)),
{
}

/// With no config file and no variables set, every setting is its default.
pub proof fn law_defaults(env: EnvSettings)
    requires
        env.cursor_path is None,
        env.port is None,
        env.port_alias is None,
        env.request_timeout_sec is None,
        env.session_cache_max is None,
        env.session_header_name is None,
        env.default_model is None,
        env.fallback_model is None,
    ensures
        spec_config(None, env).cursor_path is None,
        spec_config(None, env).port == DEFAULT_PORT,
        spec_config(None, env).request_timeout_sec == DEFAULT_REQUEST_TIMEOUT_SEC,
        spec_config(None, env).session_cache_max == DEFAULT_SESSION_CACHE_MAX,
        spec_config(None, env).session_header_name == DEFAULT_SESSION_HEADER_NAME@,
        spec_config(None, env).default_model is None,
        spec_config(None, env).fallback_model is None,
{
}

/// `steps` are the paths met while joining each of `names` onto its first one in turn.
pub open spec fn join_steps(names: Seq<Seq<char>>, steps: Seq<Seq<char>>) -> bool {
    &&& steps.len() == names.len() + 1
    &&& forall|i: int| 0 <= i < names.len() ==> join_of(steps[i], names[i], #[trigger] steps[i + 1])
}

/// `r` is `base` with each of `names` joined on in turn.
pub open spec fn path_chain(base: Seq<char>, names: Seq<Seq<char>>, r: Seq<char>) -> bool {
    exists|steps: Seq<Seq<char>>|
        #[trigger] join_steps(names, steps) && steps[0] == base && steps.last() == r
}

/// The texts of string slices.
pub open spec fn slice_views(names: Seq<&str>) -> Seq<Seq<char>> {
    names.map_values(|n: &str| n@)
}

proof fn lemma_chain_step(base: Seq<char>, names: Seq<Seq<char>>, mid: Seq<char>, r: Seq<char>)
    requires
        names.len() > 0,
        path_chain(base, names.drop_last(), mid),
        join_of(mid, names.last(), r),
    ensures
        path_chain(base, names, r),
{
    let steps = choose|steps: Seq<Seq<char>>|
        #[trigger] join_steps(names.drop_last(), steps) && steps[0] == base && steps.last() == mid;
    let all = steps.push(r);
    assert forall|i: int| 0 <= i < names.len() implies join_of(all[i], names[i], #[trigger] all[i + 1]) by {
        if i < names.len() - 1 {
            assert(names[i] == names.drop_last()[i]);
            assert(all[i] == steps[i] && all[i + 1] == steps[i + 1]);
        } else {
            assert(all[i] == mid && all[i + 1] == r);
        }
    }
    assert(join_steps(names, all));
}

/// Joins each name onto `base` in turn, as `Path::join` does.
fn join_names(base: &str, names: &Vec<&str>) -> (r: String)
    requires
        forall|i: int| 0 <= i < names@.len() ==> plain_component(#[trigger] names@[i]@),
    ensures
        path_chain(base@, slice_views(names@), r@),
{
    let mut cur = base.to_owned();
    let mut i: usize = 0;
    assert(slice_views(names@).take(0) =~= Seq::<Seq<char>>::empty());
    assert(join_steps(Seq::<Seq<char>>::empty(), seq![base@]));
    while i < names.len()
        invariant
            i <= names@.len(),
            forall|j: int| 0 <= j < names@.len() ==> plain_component(#[trigger] names@[j]@),
            path_chain(base@, slice_views(names@).take(i as int), cur@),
        decreases names@.len() - i,
    {
        let ghost mid = cur@;
        let next = path_join(cur.as_str(), names[i]);
        assert(slice_views(names@).take(i + 1).drop_last() =~= slice_views(names@).take(i as int));
        assert(slice_views(names@).take(i + 1).last() == names@[i as int]@);
        proof {
            lemma_chain_step(base@, slice_views(names@).take(i + 1), mid, next@);
        }
        cur = next;
        i = i + 1;
    }
    assert(slice_views(names@).take(names@.len() as int) =~= slice_views(names@));
    cur
}

/// Candidate cursor-agent paths outside Windows: `~/.local/bin/agent`,
/// `/usr/local/bin/agent`, `~/.cursor/bin/agent`, in that order.
pub fn cursor_search_paths_unix(home: &str) -> (r: Vec<String>)
    ensures
        r@.len() == 3,
        path_chain(home@, seq![".local"@, "bin"@, "agent"@], r@[0]@),
        r@[1]@ == "/usr/local/bin/agent"@,
        path_chain(home@, seq![".cursor"@, "bin"@, "agent"@], r@[2]@),
{
    proof {
        reveal_strlit(".local");
        reveal_strlit("bin");
        reveal_strlit("agent");
        reveal_strlit(".cursor");
    }
    let mut a: Vec<&str> = Vec::new();
    a.push(".local");
    a.push("bin");
    a.push("agent");
    assert(slice_views(a@) =~= seq![".local"@, "bin"@, "agent"@]);
    let mut c: Vec<&str> = Vec::new();
    c.push(".cursor");
    c.push("bin");
    c.push("agent");
    assert(slice_views(c@) =~= seq![".cursor"@, "bin"@, "agent"@]);
    let mut r: Vec<String> = Vec::new();
    r.push(join_names(home, &a));
    r.push("/usr/local/bin/agent".to_owned());
    r.push(join_names(home, &c));
    r
}

/// The Windows local application data directory: the `LOCALAPPDATA`
/// variable, else `~/AppData/Local`.
pub open spec fn is_local_dir(home: Seq<char>, local_app_data: Option<&str>, local: Seq<char>) -> bool {
    match local_app_data {
        Some(l) => local == l@,
        None => path_chain(home, seq!["AppData"@, "Local"@], local),
    }
}

/// Candidate cursor-agent paths on Windows, under `local` (the
/// `LOCALAPPDATA` variable, else `~/AppData/Local`) and the home directory:
/// `<local>/Programs/cursor/resources/app/bin/agent.exe`,
/// `<local>/cursor-agent/agent.cmd`, `~/.cursor/bin/agent.exe`,
/// `~/.cursor/bin/agent.cmd`, `~/.local/bin/agent.exe`, in that order.
pub fn cursor_search_paths_windows(home: &str, local_app_data: Option<&str>) -> (r: Vec<String>)
    ensures
        r@.len() == 5,
        exists|local: Seq<char>|
            #[trigger] is_local_dir(home@, local_app_data, local) && path_chain(
                local,
                seq!["Programs"@, "cursor"@, "resources"@, "app"@, "bin"@, "agent.exe"@],
                r@[0]@,
            ) && path_chain(local, seq!["cursor-agent"@, "agent.cmd"@], r@[1]@),
        path_chain(home@, seq![".cursor"@, "bin"@, "agent.exe"@], r@[2]@),
        path_chain(home@, seq![".cursor"@, "bin"@, "agent.cmd"@], r@[3]@),
        path_chain(home@, seq![".local"@, "bin"@, "agent.exe"@], r@[4]@),
{
    proof {
        reveal_strlit("AppData");
        reveal_strlit("Local");
        reveal_strlit("Programs");
        reveal_strlit("cursor");
        reveal_strlit("resources");
        reveal_strlit("app");
        reveal_strlit("bin");
        reveal_strlit("agent.exe");
        reveal_strlit("cursor-agent");
        reveal_strlit("agent.cmd");
        reveal_strlit(".cursor");
        reveal_strlit(".local");
    }
    let local: String = match local_app_data {
        Some(l) => l.to_owned(),
        None => {
            let mut n: Vec<&str> = Vec::new();
            n.push("AppData");
            n.push("Local");
            assert(slice_views(n@) =~= seq!["AppData"@, "Local"@]);
            join_names(home, &n)
        },
    };
    let mut p0: Vec<&str> = Vec::new();
    p0.push("Programs");
    p0.push("cursor");
    p0.push("resources");
    p0.push("app");
    p0.push("bin");
    p0.push("agent.exe");
    assert(slice_views(p0@) =~= seq!["Programs"@, "cursor"@, "resources"@, "app"@, "bin"@, "agent.exe"@]);
    let mut p1: Vec<&str> = Vec::new();
    p1.push("cursor-agent");
    p1.push("agent.cmd");
    assert(slice_views(p1@) =~= seq!["cursor-agent"@, "agent.cmd"@]);
    let mut p2: Vec<&str> = Vec::new();
    p2.push(".cursor");
    p2.push("bin");
    p2.push("agent.exe");
    assert(slice_views(p2@) =~= seq![".cursor"@, "bin"@, "agent.exe"@]);
    let mut p3: Vec<&str> = Vec::new();
    p3.push(".cursor");
    p3.push("bin");
    p3.push("agent.cmd");
    assert(slice_views(p3@) =~= seq![".cursor"@, "bin"@, "agent.cmd"@]);
    let mut p4: Vec<&str> = Vec::new();
    p4.push(".local");
    p4.push("bin");
    p4.push("agent.exe");
    assert(slice_views(p4@) =~= seq![".local"@, "bin"@, "agent.exe"@]);
    assert(is_local_dir(home@, local_app_data, local@));
    let mut r: Vec<String> = Vec::new();
    r.push(join_names(local.as_str(), &p0));
    r.push(join_names(local.as_str(), &p1));
    r.push(join_names(home, &p2));
    r.push(join_names(home, &p3));
    r.push(join_names(home, &p4));
    r
}

/// What `which agent` (or `where agent`) printed, read as a path: `None`
/// when it printed no line at all, else its first line trimmed (possibly empty).
pub open spec fn printed_path(out: Seq<char>) -> Option<Seq<char>> {
    if lines(out).len() == 0 {
        None
    } else {
        Some(trim(lines(out)[0]))
    }
}

/// Reads the path a `which`/`where` lookup printed.
pub fn which_output_path(out: &str) -> (r: Option<String>)
    ensures
        owned_text(r) == printed_path(out@),
{
    let cs = chars_of(out);
    let ls = split_lines(cs.as_slice());
    if ls.len() == 0 {
        return None;
    }
    assert(ls@[0]@ == lines(out@)[0]);
    let t = trim_chars(ls[0].as_slice());
    Some(string_from_chars(t.as_slice()))
}

/// The probe reported `p` absent.
pub open spec fn reported_absent<E: Fn(&String) -> bool>(path_exists: E, p: Seq<char>) -> bool {
    exists|x: &String| x@ == p && #[trigger] path_exists.ensures((x,), false)
}

/// The probe reported `p` present.
pub open spec fn reported_present<E: Fn(&String) -> bool>(path_exists: E, p: Seq<char>) -> bool {
    exists|x: &String| x@ == p && #[trigger] path_exists.ensures((x,), true)
}

/// The candidate is empty (no path), or the probe reported it absent.
pub open spec fn absent_or_empty<E: Fn(&String) -> bool>(path_exists: E, p: Seq<char>) -> bool {
    p.len() == 0 || reported_absent(path_exists, p)
}

/// The path a lookup's output names (`None` when the lookup gave nothing, or
/// printed no line).
pub open spec fn looked_up(lookup: Option<Seq<char>>) -> Option<Seq<char>> {
    match lookup {
        Some(out) => printed_path(out),
        None => None,
    }
}

/// No usable path: none at all, an empty one, or one the probe reported absent.
pub open spec fn path_unusable<E: Fn(&String) -> bool>(path_exists: E, p: Option<Seq<char>>) -> bool {
    match p {
        Some(p) => absent_or_empty(path_exists, p),
        None => true,
    }
}

/// The lookup gave no usable path.
pub open spec fn lookup_unusable<E: Fn(&String) -> bool>(path_exists: E, lookup: Option<Seq<char>>) -> bool {
    path_unusable(path_exists, looked_up(lookup))
}

/// `r` is what detection picks from a lookup's output and the candidate
/// paths: a path it gives is non-empty and reported present; it is the
/// looked-up path, or (when that is unusable) the first candidate that is not
/// empty and not reported absent; nothing only when the looked-up path and
/// every candidate are unusable.
pub open spec fn detected<E: Fn(&String) -> bool>(
    path_exists: E,
    lookup: Option<Seq<char>>,
    candidates: Seq<Seq<char>>,
    r: Option<Seq<char>>,
) -> bool {
    &&& r matches Some(q) ==> q.len() > 0 && reported_present(path_exists, q)
    &&& r matches Some(q) ==> looked_up(lookup) == Some(q) || (lookup_unusable(path_exists, lookup)
        && exists|i: int|
        0 <= i < candidates.len() && #[trigger] candidates[i] == q && forall|j: int|
            0 <= j < i ==> absent_or_empty(path_exists, #[trigger] candidates[j]))
    &&& r is None ==> lookup_unusable(path_exists, lookup) && forall|i: int|
        0 <= i < candidates.len() ==> absent_or_empty(path_exists, #[trigger] candidates[i])
}

/// The views of a list of paths.
pub open spec fn path_views(v: Seq<String>) -> Seq<Seq<char>> {
    v.map_values(|s: String| s@)
}

/// Picks the cursor-agent path from what a `which`/`where` lookup printed
/// (`None` when the lookup could not run or failed) and the candidate paths:
/// the printed path when it is not empty and present; else the first
/// candidate that is not empty and present.
pub fn detect_from<E: Fn(&String) -> bool>(lookup_output: Option<&str>, candidates: &Vec<String>, path_exists: E) -> (r: Option<String>)
    requires
        forall|p: &String| path_exists.requires((p,)),
    ensures
        detected(path_exists, slice_text(lookup_output), path_views(candidates@), owned_text(r)),
{
    let ghost lookup = slice_text(lookup_output);
    match lookup_output {
        Some(out) => match which_output_path(out) {
            None => {},
            Some(p) => {
                if !p.as_str().is_empty() {
                    if path_exists(&p) {
                        return Some(p);
                    }
                    assert(reported_absent(path_exists, p@));
                }
            },
        },
        None => {},
    }
    assert(lookup_unusable(path_exists, lookup));
    let mut i: usize = 0;
    while i < candidates.len()
        invariant
            i <= candidates@.len(),
            lookup == slice_text(lookup_output),
            lookup_unusable(path_exists, lookup),
            forall|p: &String| path_exists.requires((p,)),
            forall|j: int| 0 <= j < i ==> absent_or_empty(path_exists, #[trigger] path_views(candidates@)[j]),
        decreases candidates@.len() - i,
    {
        let c = &candidates[i];
        if !c.as_str().is_empty() {
            if path_exists(c) {
                let q = c.clone();
                assert(path_views(candidates@)[i as int] == q@);
                return Some(q);
            }
            assert(reported_absent(path_exists, c@));
        }
        i = i + 1;
    }
    None
}

} // verus!
