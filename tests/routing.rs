use dead_simple_webserver::{CallbackPathManager, Method};

fn table() -> CallbackPathManager<&'static str> {
    let mut t = CallbackPathManager::new();
    t.register(Method::GET, "/user/{id}/post/{pid}", "post");
    t.register(Method::GET, "/a/{x}", "wild");
    t.register(Method::GET, "/a/b", "literal");
    t.register(Method::POST, "/chat", "chat");
    t
}

#[test]
fn wildcards_bind_by_position() {
    let t = table();
    let (i, params) = t.find(Method::GET, "/user/42/post/7").unwrap();
    assert_eq!(*t.handler(i), "post");
    assert_eq!(params.get("id"), Some(&"42".to_string()));
    assert_eq!(params.get("pid"), Some(&"7".to_string()));
    assert_eq!(params.get("user"), None);
    assert_eq!(params.entries().len(), 2);
}

#[test]
fn segment_count_mismatch_finds_nothing() {
    let t = table();
    assert!(t.find(Method::GET, "/user/42/post").is_none());
    assert!(t.find(Method::GET, "/user/42/post/7/8").is_none());
    assert!(t.find(Method::GET, "/a").is_none());
    assert!(t.find(Method::POST, "/chat/x").is_none());
}

#[test]
fn earlier_registration_wins() {
    let t = table();
    let (i, params) = t.find(Method::GET, "/a/b").unwrap();
    assert_eq!(*t.handler(i), "wild");
    assert_eq!(params.get("x"), Some(&"b".to_string()));
}

#[test]
fn method_selects_bucket() {
    let t = table();
    assert!(t.find(Method::GET, "/chat").is_none());
    let (i, _) = t.find(Method::POST, "/chat").unwrap();
    assert_eq!(*t.handler(i), "chat");
    assert!(t.find(Method::TRACE, "/chat").is_none());
}

#[test]
fn query_is_ignored_when_matching() {
    let t = table();
    let (i, params) = t.find(Method::GET, "/user/1/post/2?x=3").unwrap();
    assert_eq!(*t.handler(i), "post");
    assert_eq!(params.get("pid"), Some(&"2".to_string()));
}

#[test]
fn trailing_slash_changes_segment_count() {
    let mut t = CallbackPathManager::new();
    t.register(Method::GET, "/a", 1u8);
    assert!(t.find(Method::GET, "/a/").is_none());
    assert!(t.find(Method::GET, "/a").is_some());
}

#[test]
fn empty_segments_are_literal() {
    let mut t = CallbackPathManager::new();
    t.register(Method::GET, "/a//b", 1u8);
    assert!(t.find(Method::GET, "/a//b").is_some());
    assert!(t.find(Method::GET, "/a/x/b").is_none());
}

#[test]
fn compare_and_extract() {
    assert!(CallbackPathManager::<u8>::compare("/x/y", "/{a}/y"));
    assert!(!CallbackPathManager::<u8>::compare("/x/y", "/{a}/z"));
    assert!(!CallbackPathManager::<u8>::compare("/x/y", "/{a"));
    assert!(CallbackPathManager::<u8>::compare("/x/{", "/x/{"));
    assert!(!CallbackPathManager::<u8>::compare("/x/y", "/x/{"));
    let p = CallbackPathManager::<u8>::extract("/x/y", "/{a}/{a}");
    assert_eq!(p.get("a"), Some(&"y".to_string()));
    let p = CallbackPathManager::<u8>::extract("/x/y", "/{}/y");
    assert_eq!(p.get(""), Some(&"x".to_string()));
}

#[test]
fn segments_are_not_decoded() {
    let mut t = CallbackPathManager::new();
    t.register(Method::GET, "/f/{name}", 1u8);
    let (_, params) = t.find(Method::GET, "/f/a%20b").unwrap();
    assert_eq!(params.get("name"), Some(&"a%20b".to_string()));
}

#[test]
fn literal_404_pattern_matches_only_itself() {
    let mut t = CallbackPathManager::new();
    t.register(Method::GET, "404", 1u8);
    assert!(t.find(Method::GET, "404").is_some());
    assert!(t.find(Method::GET, "/404").is_none());
    assert_eq!(t.len(), 1);
}

#[test]
fn method_names_round_trip() {
    let all = [
        Method::GET,
        Method::POST,
        Method::PUT,
        Method::PATCH,
        Method::DELETE,
        Method::HEAD,
        Method::OPTIONS,
        Method::TRACE,
    ];
    for m in all {
        assert_eq!(Method::from_name(m.name()), Some(m));
    }
    assert_eq!(Method::TRACE.name(), "TRACE");
    assert_eq!(Method::from_name("get"), None);
    assert_eq!(Method::from_name("FETCH"), None);
}
