use tcg_core::IdMap;

#[test]
fn empty_map_has_nothing() {
    let m: IdMap<u32> = IdMap::new();
    assert!(m.entries().is_empty());
    assert_eq!(m.get(&"a".to_string()), None);
}

#[test]
fn insert_then_get() {
    let mut m: IdMap<u32> = IdMap::new();
    m.insert("a".to_string(), 1);
    m.insert("b".to_string(), 2);
    assert_eq!(m.get(&"a".to_string()), Some(&1));
    assert_eq!(m.get(&"b".to_string()), Some(&2));
    assert_eq!(m.get(&"c".to_string()), None);
}

#[test]
fn insert_replaces_and_keeps_order() {
    let mut m: IdMap<u32> = IdMap::new();
    m.insert("a".to_string(), 1);
    m.insert("b".to_string(), 2);
    m.insert("a".to_string(), 3);
    assert_eq!(m.get(&"a".to_string()), Some(&3));
    assert_eq!(
        m.entries().clone(),
        vec![("a".to_string(), 3), ("b".to_string(), 2)]
    );
}
