use dead_simple_webserver::query::{parse_query, parse_target_args};
use dead_simple_webserver::router::path_of_target;

#[test]
fn malformed_tokens_are_dropped() {
    let args = parse_target_args("/p?a=1&bad&b=2");
    assert_eq!(args.get("a"), Some(&"1".to_string()));
    assert_eq!(args.get("b"), Some(&"2".to_string()));
    assert_eq!(args.get("bad"), None);
    assert_eq!(args.entries().len(), 2);
}

#[test]
fn well_formed_query_reads_every_pair() {
    let args = parse_query("k=v&k2=v2");
    assert_eq!(args.get("k"), Some(&"v".to_string()));
    assert_eq!(args.get("k2"), Some(&"v2".to_string()));
    assert_eq!(args.entries().len(), 2);
}

#[test]
fn duplicate_query_key_keeps_last() {
    let args = parse_target_args("/p?a=1&a=2");
    assert_eq!(args.get("a"), Some(&"2".to_string()));
}

#[test]
fn no_query_no_args() {
    let args = parse_target_args("/p");
    assert!(args.entries().is_empty());
    let args = parse_target_args("/p?");
    assert!(args.entries().is_empty());
}

#[test]
fn token_with_extra_equals_is_dropped() {
    let args = parse_query("a=1=2&=x");
    assert_eq!(args.get("a"), None);
    assert_eq!(args.get(""), Some(&"x".to_string()));
    assert_eq!(args.entries().len(), 1);
}

#[test]
fn query_is_everything_after_first_question_mark() {
    let args = parse_target_args("/p?a=1?b=2");
    assert_eq!(args.get("a"), None);
    assert!(args.entries().is_empty());
    let args = parse_target_args("/p?a=1?b");
    assert_eq!(args.get("a"), Some(&"1?b".to_string()));
    assert_eq!(path_of_target("/p?a=1?b=2"), "/p");
    assert_eq!(path_of_target("/p"), "/p");
}

#[test]
fn reading_a_well_formed_query_again_is_stable() {
    let first = parse_query("a=1&b=2&a=3");
    let written: Vec<String> = ["a", "b"]
        .iter()
        .map(|k| format!("{}={}", k, first.get(k).unwrap()))
        .collect();
    let second = parse_query(&written.join("&"));
    assert_eq!(second.get("a"), Some(&"3".to_string()));
    assert_eq!(second.get("b"), Some(&"2".to_string()));
    assert_eq!(first.get("a"), second.get("a"));
    assert_eq!(first.get("b"), second.get("b"));
}
