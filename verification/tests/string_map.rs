use extension_pack_gen::string_map::StringMap;

#[test]
fn new_map_has_no_entries() {
    let map = StringMap::new();
    assert!(map.keys().is_empty());
    assert!(map.get("anything").is_none());
}

#[test]
fn insert_then_get_returns_the_value() {
    let mut map = StringMap::new();
    map.insert("a".to_string(), "1".to_string());
    map.insert("b".to_string(), "2".to_string());
    assert_eq!(map.get("a"), Some(&"1".to_string()));
    assert_eq!(map.get("b"), Some(&"2".to_string()));
    assert_eq!(map.get("c"), None);
}

#[test]
fn insert_of_a_known_key_replaces_its_value_and_keeps_its_place() {
    let mut map = StringMap::new();
    map.insert("a".to_string(), "1".to_string());
    map.insert("b".to_string(), "2".to_string());
    map.insert("a".to_string(), "3".to_string());
    assert_eq!(map.get("a"), Some(&"3".to_string()));
    assert_eq!(map.get("b"), Some(&"2".to_string()));
    assert_eq!(map.keys(), vec!["a".to_string(), "b".to_string()]);
}

#[test]
fn keys_come_in_insertion_order() {
    let mut map = StringMap::new();
    map.insert("zeta".to_string(), "1".to_string());
    map.insert("alpha".to_string(), "2".to_string());
    map.insert("mid".to_string(), "3".to_string());
    assert_eq!(map.keys(), vec!["zeta".to_string(), "alpha".to_string(), "mid".to_string()]);
}

#[test]
fn clone_holds_the_same_and_is_independent() {
    let mut map = StringMap::new();
    map.insert("k".to_string(), "v".to_string());
    let mut copy = map.clone();
    copy.insert("k".to_string(), "w".to_string());
    copy.insert("l".to_string(), "x".to_string());
    assert_eq!(map.get("k"), Some(&"v".to_string()));
    assert_eq!(map.get("l"), None);
    assert_eq!(copy.get("k"), Some(&"w".to_string()));
    assert_eq!(copy.get("l"), Some(&"x".to_string()));
}

#[test]
fn empty_key_and_empty_value_are_ordinary() {
    let mut map = StringMap::new();
    map.insert(String::new(), String::new());
    assert_eq!(map.get(""), Some(&String::new()));
    assert_eq!(map.keys(), vec![String::new()]);
}
