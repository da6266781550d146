use statsrelay::table::NameTable;

#[test]
fn table_insert_get_remove() {
    let mut table: NameTable<u32> = NameTable::new();
    assert_eq!(table.len(), 0);
    table.insert("a".to_string(), 1);
    table.insert("b".to_string(), 2);
    table.insert("c".to_string(), 3);
    assert_eq!(table.len(), 3);
    assert_eq!(table.get(&"b".to_string()), Some(&2));
    assert_eq!(table.get(&"z".to_string()), None);
    assert_eq!(table.position(&"c".to_string()), Some(2));
    assert_eq!(table.remove(&"a".to_string()), Some(1));
    assert_eq!(table.remove(&"a".to_string()), None);
    assert_eq!(table.len(), 2);
    assert_eq!(table.name_at(0), "b");
    assert_eq!(*table.value_at(1), 3);
    assert_eq!(table.position(&"c".to_string()), Some(1));
}

#[test]
fn table_insert_replaces_in_place() {
    let mut table: NameTable<u32> = NameTable::new();
    table.insert("a".to_string(), 1);
    table.insert("b".to_string(), 2);
    table.insert("a".to_string(), 10);
    assert_eq!(table.len(), 2);
    assert_eq!(table.name_at(0), "a");
    assert_eq!(*table.value_at(0), 10);
    assert_eq!(table.get(&"b".to_string()), Some(&2));
}

#[test]
fn table_clone_keeps_names_and_values() {
    let mut table: NameTable<String> = NameTable::new();
    table.insert("a".to_string(), "x".to_string());
    table.insert("b".to_string(), "y".to_string());
    let copy = table.clone();
    assert_eq!(copy.len(), 2);
    assert_eq!(copy.name_at(1), "b");
    assert_eq!(copy.get(&"a".to_string()), Some(&"x".to_string()));
}
