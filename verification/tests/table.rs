use panels::table::KeyedTable;

#[test]
fn table_holds_one_entry_per_key() {
    let mut table: KeyedTable<u32> = KeyedTable::new();
    assert_eq!(table.len(), 0);
    assert!(!table.contains("a"));
    table.insert("a".into(), 1);
    table.insert("b".into(), 2);
    table.insert("a".into(), 3);
    assert_eq!(table.len(), 2);
    assert_eq!(table.get("a"), Some(&3));
    assert_eq!(table.get("b"), Some(&2));
    assert_eq!(table.get("c"), None);
    assert!(table.contains("b"));
}

#[test]
fn table_keeps_the_order_in_which_keys_came_in() {
    let mut table: KeyedTable<u32> = KeyedTable::new();
    for (i, key) in ["z", "m", "a", "m", "z", "q"].iter().enumerate() {
        table.insert(key.to_string(), i as u32);
    }
    let rows: Vec<(String, u32)> =
        (0..table.len()).map(|i| (table.row(i).0.clone(), *table.row(i).1)).collect();
    assert_eq!(
        rows,
        vec![
            ("z".to_string(), 4),
            ("m".to_string(), 3),
            ("a".to_string(), 2),
            ("q".to_string(), 5)
        ]
    );
}
