use riversd::query::{parse_query_string, parse_query_string_multi};

#[test]
fn multi_preserves_duplicates() {
    let (first, all) = parse_query_string_multi("tag=a&tag=b&tag=c");
    assert_eq!(first.get("tag"), Some(&"a".to_string()));
    assert_eq!(all.get("tag").unwrap(), &vec!["a".to_string(), "b".to_string(), "c".to_string()]);
}

#[test]
fn multi_single_value_is_array_of_one() {
    let (_, all) = parse_query_string_multi("limit=10");
    assert_eq!(all.get("limit").unwrap(), &vec!["10".to_string()]);
}

#[test]
fn multi_empty_value() {
    let (first, _) = parse_query_string_multi("key=");
    assert_eq!(first.get("key"), Some(&"".to_string()));
}

#[test]
fn multi_bare_key() {
    let (first, _) = parse_query_string_multi("key");
    assert_eq!(first.get("key"), Some(&"".to_string()));
}

#[test]
fn multi_percent_encoded() {
    let (first, _) = parse_query_string_multi("name=John%20Doe");
    assert_eq!(first.get("name"), Some(&"John Doe".to_string()));
}

#[test]
fn multi_empty_string() {
    let (first, all) = parse_query_string_multi("");
    assert!(first.is_empty());
    assert!(all.is_empty());
}

#[test]
fn single_map_keeps_last_value_and_decodes() {
    let m = parse_query_string("a=1&&b=x%2By&a=2&c");
    assert_eq!(m.get("a"), Some(&"2".to_string()));
    assert_eq!(m.get("b"), Some(&"x+y".to_string()));
    assert_eq!(m.get("c"), Some(&"".to_string()));
    assert_eq!(m.len(), 3);
}

#[test]
fn value_keeps_later_equals_signs() {
    let (first, _) = parse_query_string_multi("k=a=b");
    assert_eq!(first.get("k"), Some(&"a=b".to_string()));
}
