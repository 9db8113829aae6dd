use pencil::datastructures::{Headers, MultiDict};

#[test]
fn multidict_keeps_every_value_in_order() {
    let mut d = MultiDict::new();
    d.add("k", "v1");
    d.add("k", "v2");
    assert_eq!(d.get_all("k"), vec!["v1".to_string(), "v2".to_string()]);
    assert_eq!(d.len(), 2);
}

#[test]
fn multidict_missing_key_is_empty() {
    let mut d = MultiDict::new();
    assert!(d.get_all("missing").is_empty());
    assert_eq!(d.get_first("missing"), None);
    d.add("k", "v");
    assert!(d.get_all("missing").is_empty());
    assert_eq!(d.get_first("missing"), None);
}

#[test]
fn multidict_add_leaves_other_keys_alone() {
    let mut d = MultiDict::new();
    d.add("a", "1");
    d.add("b", "2");
    d.add("a", "3");
    assert_eq!(d.get_all("a"), vec!["1".to_string(), "3".to_string()]);
    assert_eq!(d.get_all("b"), vec!["2".to_string()]);
}

#[test]
fn multidict_get_first_is_the_oldest_value() {
    let mut d = MultiDict::new();
    d.add("b", "0");
    d.add("a", "1");
    d.add("a", "2");
    assert_eq!(d.get_first("a"), Some("1".to_string()));
    assert_eq!(d.get_first("b"), Some("0".to_string()));
}

#[test]
fn multidict_keys_are_case_sensitive() {
    let mut d = MultiDict::new();
    d.add("Key", "1");
    assert!(d.get_all("key").is_empty());
    assert_eq!(d.get_all("Key"), vec!["1".to_string()]);
}

#[test]
fn multidict_from_pairs_keeps_the_pairs() {
    let d = MultiDict::from_pairs(vec![
        ("a".to_string(), "1".to_string()),
        ("b".to_string(), "2".to_string()),
        ("a".to_string(), "3".to_string()),
    ]);
    assert_eq!(d.len(), 3);
    assert_eq!(d.get_all("a"), vec!["1".to_string(), "3".to_string()]);
    assert_eq!(d.get_first("b"), Some("2".to_string()));
}

#[test]
fn headers_lookup_ignores_case() {
    let mut h = Headers::new(None);
    h.set("Content-Type", "x");
    assert_eq!(h.get("content-type"), Some(&"x".to_string()));
    assert_eq!(h.get("CONTENT-TYPE"), Some(&"x".to_string()));
    assert_eq!(h.get("Content-Typ"), None);
}

#[test]
fn headers_set_replaces_rather_than_duplicates() {
    let mut h = Headers::new(None);
    h.set("Content-Type", "x");
    h.set("CONTENT-TYPE", "y");
    assert_eq!(h.len(), 1);
    assert_eq!(h.get("content-type"), Some(&"y".to_string()));
}

#[test]
fn headers_keep_other_names() {
    let mut h = Headers::new(None);
    h.set("Host", "example.com");
    h.set("Accept", "*/*");
    h.set("host", "example.org");
    assert_eq!(h.len(), 2);
    assert_eq!(h.get("HOST"), Some(&"example.org".to_string()));
    assert_eq!(h.get("accept"), Some(&"*/*".to_string()));
}

#[test]
fn headers_missing_name_is_none() {
    let h = Headers::new(None);
    assert_eq!(h.len(), 0);
    assert_eq!(h.get("Host"), None);
}

#[test]
fn headers_from_initial_pairs() {
    let h = Headers::new(Some(vec![
        ("A".to_string(), "1".to_string()),
        ("B".to_string(), "2".to_string()),
        ("a".to_string(), "3".to_string()),
    ]));
    assert_eq!(h.len(), 2);
    assert_eq!(h.get("a"), Some(&"3".to_string()));
    assert_eq!(h.get("b"), Some(&"2".to_string()));
}

#[test]
fn headers_non_ascii_letters_are_not_folded() {
    let mut h = Headers::new(None);
    h.set("X-\u{c9}", "1");
    assert_eq!(h.get("x-\u{c9}"), Some(&"1".to_string()));
    assert_eq!(h.get("x-\u{e9}"), None);
}

#[test]
fn headers_to_pairs_keeps_first_spelling_and_order() {
    let mut h = Headers::new(None);
    h.set("Content-Type", "a");
    h.set("X-Other", "b");
    h.set("content-type", "c");
    assert_eq!(
        h.to_pairs(),
        vec![
            ("Content-Type".to_string(), "c".to_string()),
            ("X-Other".to_string(), "b".to_string()),
        ]
    );
}
