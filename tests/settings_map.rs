use userstyles::settings_map::SettingsMap;

#[test]
fn new_map_is_empty() {
    let map = SettingsMap::new();
    assert_eq!(map.as_entries().len(), 0);
    assert_eq!(map.get(&String::from("a")), None);
}

#[test]
fn insert_then_get() {
    let mut map = SettingsMap::new();
    map.insert(String::from("a"), String::from("1"));
    map.insert(String::from("b"), String::from("2"));
    assert_eq!(map.get(&String::from("a")), Some(&String::from("1")));
    assert_eq!(map.get(&String::from("b")), Some(&String::from("2")));
    assert_eq!(map.get(&String::from("c")), None);
}

#[test]
fn insert_same_key_replaces_value() {
    let mut map = SettingsMap::new();
    map.insert(String::from("a"), String::from("1"));
    map.insert(String::from("a"), String::from("2"));
    assert_eq!(map.get(&String::from("a")), Some(&String::from("2")));
    assert_eq!(map.as_entries().len(), 1);
}
