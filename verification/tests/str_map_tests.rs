use genvm::str_map::StrMap;

#[test]
fn insert_get_and_order() {
    let mut m: StrMap<u32> = StrMap::new();
    m.insert("b".into(), 2);
    m.insert("a".into(), 1);
    m.insert("ä".into(), 4);
    m.insert("B".into(), 3);
    assert_eq!(m.get("a"), Some(&1));
    assert_eq!(m.get("z"), None);
    let keys: Vec<&str> = m.entries().iter().map(|(k, _)| k.as_str()).collect();
    assert_eq!(keys, vec!["B", "a", "b", "ä"]);
    assert_eq!(m.len(), 4);
}

#[test]
fn later_write_replaces_earlier() {
    let mut m: StrMap<&str> = StrMap::new();
    m.insert("k".into(), "first");
    m.insert("k".into(), "second");
    assert_eq!(m.len(), 1);
    assert_eq!(m.get("k"), Some(&"second"));
    assert!(m.contains_key("k"));
    assert!(!m.contains_key("K"));
}

#[test]
fn retain_by_flags_keeps_order() {
    let mut m: StrMap<u8> = StrMap::new();
    for (k, v) in [("c", 3), ("a", 1), ("b", 2)] {
        m.insert(k.into(), v);
    }
    m.retain_flags(&vec![true, false, true]);
    let e: Vec<(String, u8)> = m.into_entries();
    assert_eq!(e, vec![("a".to_string(), 1), ("c".to_string(), 3)]);
}
