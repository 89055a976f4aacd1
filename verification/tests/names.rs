use bus::names::NameMap;

#[test]
fn entries_are_walked_in_name_order() {
    let mut m: NameMap<u32> = NameMap::new();
    assert_eq!(m.insert("delta", 4), None);
    assert_eq!(m.insert("alpha", 1), None);
    assert_eq!(m.insert("charlie", 3), None);
    assert_eq!(m.insert("bravo", 2), None);
    assert_eq!(m.len(), 4);
    let names: Vec<&str> = (0..m.len()).map(|i| m.name_at(i).as_str()).collect();
    assert_eq!(names, vec!["alpha", "bravo", "charlie", "delta"]);
    let items: Vec<u32> = (0..m.len()).map(|i| *m.item_at(i)).collect();
    assert_eq!(items, vec![1, 2, 3, 4]);
}

#[test]
fn insert_replaces_and_remove_takes_out() {
    let mut m: NameMap<u32> = NameMap::new();
    assert_eq!(m.insert("a", 1), None);
    assert_eq!(m.insert("a", 2), Some(1));
    assert_eq!(m.len(), 1);
    assert_eq!(m.get("a"), Some(&2));
    assert!(m.contains("a"));
    assert!(!m.contains("b"));
    assert_eq!(m.get("b"), None);
    assert_eq!(m.remove("b"), None);
    assert_eq!(m.remove("a"), Some(2));
    assert_eq!(m.len(), 0);
    assert_eq!(m.remove("a"), None);
}
