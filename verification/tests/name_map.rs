use tailcall::name_map::NameMap;

fn text(value: &str) -> String {
    value.to_string()
}

#[test]
fn new_map_is_empty() {
    let map: NameMap<String> = NameMap::new();
    assert_eq!(map.len(), 0);
    assert_eq!(map.get("a"), None);
    assert!(!map.contains_key("a"));
}

#[test]
fn insert_appends_new_names_in_order() {
    let mut map = NameMap::new();
    map.insert(text("b"), text("1"));
    map.insert(text("a"), text("2"));
    map.insert(text("c"), text("3"));
    assert_eq!(map.len(), 3);
    assert_eq!(map.key_at(0), "b");
    assert_eq!(map.key_at(1), "a");
    assert_eq!(map.key_at(2), "c");
    assert_eq!(map.value_at(1), "2");
    assert_eq!(map.get("c"), Some(&text("3")));
}

#[test]
fn insert_replaces_in_place() {
    let mut map = NameMap::new();
    map.insert(text("a"), text("1"));
    map.insert(text("b"), text("2"));
    map.insert(text("a"), text("3"));
    assert_eq!(map.into_entries(), vec![(text("a"), text("3")), (text("b"), text("2"))]);
}

#[test]
fn from_items_skips_what_holds_nothing() {
    let map = NameMap::from_items(vec![
        Some((text("x"), text("1"))),
        None,
        Some((text("y"), text("2"))),
        Some((text("x"), text("3"))),
    ]);
    assert_eq!(map.into_entries(), vec![(text("x"), text("3")), (text("y"), text("2"))]);
}

#[test]
fn names_are_compared_exactly() {
    let mut map = NameMap::new();
    map.insert(text("Name"), text("1"));
    assert!(map.contains_key("Name"));
    assert!(!map.contains_key("name"));
    assert!(!map.contains_key("Name "));
    assert!(!map.contains_key(""));
}
