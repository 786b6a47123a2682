use ironclaw_cursor_brain::json::{parse_json_text, Json};
use ironclaw_cursor_brain::session::SessionCache;

fn pairs(c: &SessionCache) -> Vec<(String, String)> {
    c.entries().clone()
}

#[test]
fn get_after_put() {
    let mut c = SessionCache::new(10);
    assert_eq!(c.get("a"), None);
    c.put("a".into(), "cur-1".into());
    assert_eq!(c.get("a"), Some("cur-1".to_string()));
    c.put("a".into(), "cur-2".into());
    assert_eq!(c.get("a"), Some("cur-2".to_string()));
    assert_eq!(c.len(), 1);
}

#[test]
fn least_recent_is_evicted() {
    let mut c = SessionCache::new(2);
    c.put("a".into(), "1".into());
    c.put("b".into(), "2".into());
    assert_eq!(c.get("a"), Some("1".to_string()));
    c.put("c".into(), "3".into());
    assert_eq!(c.len(), 2);
    assert_eq!(c.get("b"), None);
    assert_eq!(c.get("a"), Some("1".to_string()));
    assert_eq!(c.get("c"), Some("3".to_string()));
    assert_eq!(pairs(&c), vec![("a".to_string(), "1".to_string()), ("c".to_string(), "3".to_string())]);
}

#[test]
fn remove_forgets() {
    let mut c = SessionCache::new(3);
    c.put("a".into(), "1".into());
    c.put("b".into(), "2".into());
    c.remove("a");
    assert_eq!(c.get("a"), None);
    assert_eq!(c.get("b"), Some("2".to_string()));
    c.remove("zzz");
    assert_eq!(c.len(), 1);
}

#[test]
fn zero_capacity_keeps_one() {
    let mut c = SessionCache::new(0);
    assert_eq!(c.capacity(), 1);
    c.put("a".into(), "1".into());
    c.put("b".into(), "2".into());
    assert_eq!(c.len(), 1);
    assert_eq!(c.get("b"), Some("2".to_string()));
}

#[test]
fn loads_persisted_pairs() {
    let c = SessionCache::from_persisted(r#"[["x","cx"],["y","cy"],["n",5],"z"]"#, 10);
    assert_eq!(pairs(&c), vec![("x".to_string(), "cx".to_string()), ("y".to_string(), "cy".to_string())]);
    let small = SessionCache::from_persisted(r#"[["x","cx"],["y","cy"],["z","cz"]]"#, 2);
    assert_eq!(pairs(&small), vec![("y".to_string(), "cy".to_string()), ("z".to_string(), "cz".to_string())]);
    assert_eq!(SessionCache::from_persisted("garbage", 5).len(), 0);
    assert_eq!(SessionCache::from_persisted(r#"{"x":"cx"}"#, 5).len(), 0);
}

#[test]
fn persisted_pairs_reload_in_recency_order() {
    let mut c = SessionCache::new(3);
    c.put("a".into(), "1".into());
    c.put("b".into(), "2".into());
    c.put("c".into(), "3".into());
    assert_eq!(c.get("a"), Some("1".to_string()));
    let v = c.to_persisted();
    match &v {
        Json::Array(items) => {
            assert_eq!(items.len(), 3);
            match &items[0] {
                Json::Array(p) => assert!(matches!((&p[0], &p[1]), (Json::Str(k), Json::Str(x)) if k == "b" && x == "2")),
                other => panic!("unexpected {:?}", other),
            }
        }
        other => panic!("unexpected {:?}", other),
    }
    let text = r#"[["b","2"],["c","3"],["a","1"]]"#;
    let reloaded = SessionCache::from_persisted(text, 3);
    assert_eq!(pairs(&reloaded), pairs(&c));
    let mut r2 = SessionCache::new(3);
    r2.load_json(&v);
    assert_eq!(pairs(&r2), pairs(&c));
}

#[test]
fn parsed_text_model() {
    assert!(matches!(parse_json_text("[1, \"a\"]"), Some(Json::Array(ref a)) if a.len() == 2));
    assert!(matches!(parse_json_text("7"), Some(Json::Number(Some(7)))));
    assert!(parse_json_text("{").is_none());
}
