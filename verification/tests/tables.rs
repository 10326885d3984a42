use coord_agent::handles::HandleTable;
use coord_agent::name_map::NameMap;

#[test]
fn names_are_listed_in_order() {
    let mut m: NameMap<u32> = NameMap::new();
    assert!(m.is_empty());
    assert_eq!(m.insert("b".to_string(), 2), None);
    assert_eq!(m.insert("a".to_string(), 1), None);
    assert_eq!(m.insert("c".to_string(), 3), None);
    assert_eq!(m.insert("b".to_string(), 20), Some(2));
    assert_eq!(m.names(), vec!["a", "b", "c"]);
    assert_eq!(m.len(), 3);
    assert_eq!(m.get("b"), Some(&20));
    assert_eq!(m.get("d"), None);
    assert_eq!(m.position("c"), Some(2));
    assert_eq!(m.name_at(0), "a");
    assert_eq!(*m.value_at(2), 3);
    assert_eq!(m.remove("a"), Some(1));
    assert_eq!(m.remove("a"), None);
    assert!(!m.contains("a"));
    assert_eq!(m.names(), vec!["b", "c"]);
}

#[test]
fn handles_belong_to_their_owner() {
    let mut t: HandleTable<&str> = HandleTable::new();
    t.open("p", 1, "one");
    t.open("p", 2, "two");
    t.open("q", 1, "other");
    assert_eq!(t.len(), 3);
    assert_eq!(t.get("p", 1), Some(&"one"));
    assert_eq!(t.get("q", 2), None);
    t.open("p", 1, "uno");
    assert_eq!(t.len(), 3);
    assert_eq!(t.get("p", 1), Some(&"uno"));
    assert_eq!(t.close("p", 2), Some("two"));
    assert_eq!(t.close("p", 2), None);
    t.open("p", 3, "three");
    assert_eq!(t.close_all("p"), 2);
    assert_eq!(t.close_all("p"), 0);
    assert!(t.contains("q", 1));
    assert_eq!(t.len(), 1);
}
