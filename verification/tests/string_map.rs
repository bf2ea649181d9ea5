use unit_manager::string_map::StringMap;

#[test]
fn new_map_is_empty() {
    let map = StringMap::new();
    assert_eq!(map.len(), 0);
    assert!(map.entries().is_empty());
    assert_eq!(map.get("port"), None);
    assert_eq!(map.get(""), None);
}

#[test]
fn insert_then_get() {
    let mut map = StringMap::new();
    map.insert("port".to_string(), "5432".to_string());
    map.insert("host".to_string(), "localhost".to_string());
    assert_eq!(map.get("port"), Some(&"5432".to_string()));
    assert_eq!(map.get("host"), Some(&"localhost".to_string()));
    assert_eq!(map.get("user"), None);
    assert_eq!(map.len(), 2);
}

#[test]
fn insert_replaces_the_value_of_a_present_key() {
    let mut map = StringMap::new();
    map.insert("port".to_string(), "5432".to_string());
    map.insert("host".to_string(), "localhost".to_string());
    map.insert("port".to_string(), "6543".to_string());
    assert_eq!(map.get("port"), Some(&"6543".to_string()));
    assert_eq!(map.get("host"), Some(&"localhost".to_string()));
    assert_eq!(map.len(), 2);
    assert_eq!(
        map.entries(),
        &vec![
            ("port".to_string(), "6543".to_string()),
            ("host".to_string(), "localhost".to_string()),
        ]
    );
}

#[test]
fn keys_are_compared_character_by_character() {
    let mut map = StringMap::new();
    map.insert("db.service".to_string(), "1".to_string());
    map.insert("db.servicE".to_string(), "2".to_string());
    map.insert("db.service ".to_string(), "3".to_string());
    map.insert("".to_string(), "4".to_string());
    map.insert("d\u{e9}".to_string(), "5".to_string());
    assert_eq!(map.len(), 5);
    assert_eq!(map.get("db.service"), Some(&"1".to_string()));
    assert_eq!(map.get("db.servicE"), Some(&"2".to_string()));
    assert_eq!(map.get("db.service "), Some(&"3".to_string()));
    assert_eq!(map.get(""), Some(&"4".to_string()));
    assert_eq!(map.get("d\u{e9}"), Some(&"5".to_string()));
    assert_eq!(map.get("de"), None);
    assert_eq!(map.get("db.servic"), None);
}

#[test]
fn entries_hold_each_key_once() {
    let mut map = StringMap::new();
    for round in 0..3 {
        for key in ["a", "b", "c"] {
            map.insert(key.to_string(), format!("{}{}", key, round));
        }
    }
    let entries = map.entries();
    assert_eq!(entries.len(), 3);
    assert_eq!(
        entries,
        &vec![
            ("a".to_string(), "a2".to_string()),
            ("b".to_string(), "b2".to_string()),
            ("c".to_string(), "c2".to_string()),
        ]
    );
}
