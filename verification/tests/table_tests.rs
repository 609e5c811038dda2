use neurox::table::Table;

fn s(x: &str) -> String {
    x.to_string()
}

#[test]
fn new_table_is_empty() {
    let t: Table<String> = Table::new();
    assert_eq!(t.len(), 0);
    assert!(t.is_empty());
    assert_eq!(t.get(&s("a")), None);
}

#[test]
fn insert_then_get() {
    let mut t = Table::new();
    t.insert(s("a"), 1u32);
    t.insert(s("b"), 2u32);
    assert_eq!(t.len(), 2);
    assert_eq!(t.get(&s("a")), Some(&1));
    assert_eq!(t.get(&s("b")), Some(&2));
    assert_eq!(t.get(&s("c")), None);
}

#[test]
fn overwrite_keeps_position_and_length() {
    let mut t = Table::new();
    t.insert(s("a"), 1u32);
    t.insert(s("b"), 2u32);
    t.insert(s("a"), 3u32);
    assert_eq!(t.len(), 2);
    let (k0, v0) = t.entry(0);
    let (k1, v1) = t.entry(1);
    assert_eq!((k0.as_str(), *v0), ("a", 3));
    assert_eq!((k1.as_str(), *v1), ("b", 2));
}

#[test]
fn new_key_goes_last() {
    let mut t = Table::new();
    t.insert(s("z"), 1u32);
    t.insert(s("a"), 2u32);
    let (k1, _) = t.entry(1);
    assert_eq!(k1, "a");
}

#[test]
fn duplicate_copies_entries() {
    let mut t = Table::new();
    t.insert(s("x"), s("1"));
    t.insert(s("y"), s("2"));
    let d = t.duplicate();
    assert_eq!(d.len(), 2);
    assert_eq!(d.entry(0), (&s("x"), &s("1")));
    assert_eq!(d.entry(1), (&s("y"), &s("2")));
}
