use agctl::table::StringTable;

#[test]
fn table_insert_get_replace() {
    let mut t = StringTable::new();
    assert!(t.is_empty());
    t.insert("a".to_string(), "1".to_string());
    t.insert("b".to_string(), "2".to_string());
    t.insert("a".to_string(), "3".to_string());
    assert_eq!(t.len(), 2);
    assert_eq!(t.get("a"), Some("3".to_string()));
    assert_eq!(t.get("b"), Some("2".to_string()));
    assert_eq!(t.get("c"), None);
    assert!(t.contains_key("b"));
    assert!(!t.contains_key("c"));
}

#[test]
fn table_remove_and_entries() {
    let mut t = StringTable::new();
    t.insert("x".to_string(), "1".to_string());
    t.insert("y".to_string(), "2".to_string());
    assert!(t.remove("x"));
    assert!(!t.remove("x"));
    assert_eq!(t.entries(), vec![("y".to_string(), "2".to_string())]);
    assert_eq!(t.len(), 1);
}

#[test]
fn table_key_for_value() {
    let mut t = StringTable::new();
    t.insert("k".to_string(), "arn:1".to_string());
    assert_eq!(t.key_for_value("arn:1"), Some("k".to_string()));
    assert_eq!(t.key_for_value("arn:2"), None);
}
