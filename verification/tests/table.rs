use mcp_trap_generator::table::Table;

#[test]
fn new_table_is_empty() {
    let table: Table<String> = Table::new();
    assert_eq!(table.len(), 0);
    assert_eq!(table.position("a"), None);
    assert!(!table.contains_key("a"));
    assert_eq!(table.get("a"), None);
}

#[test]
fn insert_keeps_the_order_of_insertion() {
    let mut table: Table<String> = Table::new();
    table.insert("b".to_string(), "2".to_string());
    table.insert("a".to_string(), "1".to_string());
    table.insert("c".to_string(), "3".to_string());
    assert_eq!(table.len(), 3);
    assert_eq!(table.key_at(0), "b");
    assert_eq!(table.key_at(1), "a");
    assert_eq!(table.key_at(2), "c");
    assert_eq!(table.value_at(0), "2");
    assert_eq!(table.value_at(1), "1");
    assert_eq!(table.value_at(2), "3");
    assert_eq!(table.position("a"), Some(1));
    assert_eq!(table.position("d"), None);
}

#[test]
fn insert_under_a_present_key_replaces_in_place() {
    let mut table: Table<String> = Table::new();
    table.insert("a".to_string(), "1".to_string());
    table.insert("b".to_string(), "2".to_string());
    table.insert("a".to_string(), "one".to_string());
    assert_eq!(table.len(), 2);
    assert_eq!(table.key_at(0), "a");
    assert_eq!(table.value_at(0), "one");
    assert_eq!(table.key_at(1), "b");
    assert_eq!(table.get("a"), Some(&"one".to_string()));
    assert_eq!(table.get("b"), Some(&"2".to_string()));
}

#[test]
fn keys_are_compared_exactly() {
    let mut table: Table<String> = Table::new();
    table.insert("Key".to_string(), "upper".to_string());
    table.insert("key".to_string(), "lower".to_string());
    table.insert("".to_string(), "empty".to_string());
    assert_eq!(table.len(), 3);
    assert_eq!(table.get("Key"), Some(&"upper".to_string()));
    assert_eq!(table.get("key"), Some(&"lower".to_string()));
    assert_eq!(table.get(""), Some(&"empty".to_string()));
    assert_eq!(table.get("ke"), None);
    assert!(table.contains_key("key"));
    assert!(!table.contains_key("keys"));
}
