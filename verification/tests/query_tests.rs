use flapit_server::query::parse_query_string;

#[test]
fn parses_device_and_message() {
    let p = parse_query_string(&"device=D1&message=HELLO".to_string());
    assert!(p.contains_key("device"));
    assert!(p.contains_key("message"));
    assert_eq!(p.get("device"), Some(&"D1".to_string()));
    assert_eq!(p.get("message"), Some(&"HELLO".to_string()));
    assert!(!p.contains_key("other"));
}

#[test]
fn piece_without_equals_is_skipped() {
    let p = parse_query_string(&"device".to_string());
    assert!(!p.contains_key("device"));
}

#[test]
fn last_value_wins() {
    let p = parse_query_string(&"a=1&a=2".to_string());
    assert_eq!(p.get("a"), Some(&"2".to_string()));
}

#[test]
fn value_may_contain_equals() {
    let p = parse_query_string(&"a=b=c".to_string());
    assert_eq!(p.get("a"), Some(&"b=c".to_string()));
}

#[test]
fn empty_string_has_no_parameters() {
    let p = parse_query_string(&"".to_string());
    assert!(!p.contains_key(""));
}

#[test]
fn empty_value_is_kept() {
    let p = parse_query_string(&"a=&b=x".to_string());
    assert_eq!(p.get("a"), Some(&"".to_string()));
    assert_eq!(p.get("b"), Some(&"x".to_string()));
}
