use minihttp::query_string::{QueryString, QueryStringValue};

#[test]
fn absent_key_yields_none() {
    let qs = QueryString::from("a=1&b=2");
    assert!(qs.get("c").is_none());
    assert!(qs.get("").is_none());
}

#[test]
fn value_with_equals_is_kept_verbatim() {
    // Only the first `=` splits; the rest belongs to the value.
    let qs = QueryString::from("a=b=c");
    match qs.get("a") {
        Some(QueryStringValue::Single(v)) => assert_eq!(*v, "b=c"),
        other => panic!("a: unexpected {:?}", other),
    }
}

#[test]
fn empty_text_maps_empty_key_to_empty_value() {
    let qs = QueryString::from("");
    match qs.get("") {
        Some(QueryStringValue::Single(v)) => assert_eq!(*v, ""),
        other => panic!("empty key: unexpected {:?}", other),
    }
}

#[test]
fn three_occurrences_keep_encounter_order() {
    let qs = QueryString::from("k=1&k=2&k=3");
    match qs.get("k") {
        Some(QueryStringValue::Multiple(vs)) => assert_eq!(vs[..], ["1", "2", "3"][..]),
        other => panic!("k: unexpected {:?}", other),
    }
}

#[test]
fn single_then_repeat_converts_to_multiple() {
    let qs = QueryString::from("a=1&b=x&a=2");
    match qs.get("a") {
        Some(QueryStringValue::Multiple(vs)) => assert_eq!(vs[..], ["1", "2"][..]),
        other => panic!("a: unexpected {:?}", other),
    }
    match qs.get("b") {
        Some(QueryStringValue::Single(v)) => assert_eq!(*v, "x"),
        other => panic!("b: unexpected {:?}", other),
    }
}

#[test]
fn keys_are_exact_matches() {
    let qs = QueryString::from("key=1");
    assert!(qs.get("KEY").is_none());
    assert!(qs.get("ke").is_none());
    assert!(qs.get("keys").is_none());
}
