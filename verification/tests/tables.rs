use emulated_client::table::Table;

fn s(text: &str) -> String {
    text.to_string()
}

#[test]
fn a_table_holds_one_value_for_a_key() {
    let mut table: Table<String, u8> = Table::new();
    assert_eq!(table.len(), 0);
    assert_eq!(table.insert(s("a"), 1), None);
    assert_eq!(table.insert(s("b"), 2), None);
    assert_eq!(table.insert(s("a"), 3), Some(1));
    assert_eq!(table.len(), 2);
    assert_eq!(table.get(&s("a")), Some(&3));
    assert!(table.contains_key(&s("b")));
    assert!(!table.contains_key(&s("c")));
}

#[test]
fn removed_keys_are_gone() {
    let mut table: Table<Vec<u8>, u8> = Table::new();
    for i in 0..4u8 {
        table.insert(vec![i], i);
    }
    assert_eq!(table.remove(&vec![1]), Some(1));
    assert_eq!(table.remove(&vec![1]), None);
    assert_eq!(table.remove(&vec![3]), Some(3));
    let mut keys = table.keys();
    keys.sort();
    assert_eq!(keys, vec![vec![0], vec![2]]);
    for i in 0..table.len() {
        let (key, value) = table.entry(i);
        assert_eq!(key[0], *value);
    }
}

#[test]
fn a_copied_table_is_one_of_its_own() {
    let mut table: Table<String, u8> = Table::new();
    table.insert(s("a"), 1);
    table.insert(s("b"), 2);
    let mut copy = table.clone();
    assert_eq!(copy.keys(), table.keys());
    copy.insert(s("a"), 9);
    assert_eq!((table.get(&s("a")), copy.get(&s("a"))), (Some(&1), Some(&9)));
    assert_eq!(copy.get(&s("b")), Some(&2));
}
