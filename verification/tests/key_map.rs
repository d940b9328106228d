use dprint_plugin_clang::key_map::ConfigKeyMap;
use dprint_plugin_clang::value::ConfigKeyValue;

fn number(n: i32) -> ConfigKeyValue {
    ConfigKeyValue::Number(n)
}

fn keys(map: &ConfigKeyMap) -> Vec<String> {
    let mut keys = Vec::new();
    let mut i = 0;
    while let Some((key, _)) = map.get_index(i) {
        keys.push(key.clone());
        i += 1;
    }
    keys
}

fn map_of(entries: &[(&str, i32)]) -> ConfigKeyMap {
    let mut map = ConfigKeyMap::new();
    for (key, value) in entries {
        map.insert(key.to_string(), number(*value));
    }
    map
}

#[test]
fn new_map_is_empty() {
    let map = ConfigKeyMap::new();
    assert_eq!(map.len(), 0);
    assert_eq!(map.get("a"), None);
    assert_eq!(map.get_index(0), None);
}

#[test]
fn insert_appends_new_keys_in_order() {
    let map = map_of(&[("b", 1), ("a", 2), ("c", 3)]);
    assert_eq!(map.len(), 3);
    assert_eq!(keys(&map), vec!["b", "a", "c"]);
    assert_eq!(map.get("a"), Some(&number(2)));
    assert_eq!(map.get_index(2), Some((&"c".to_string(), &number(3))));
    assert_eq!(map.get_index(3), None);
}

#[test]
fn insert_replaces_in_place_and_returns_the_old_value() {
    let mut map = map_of(&[("b", 1), ("a", 2), ("c", 3)]);
    let previous = map.insert("a".to_string(), number(20));
    assert_eq!(previous, Some(number(2)));
    assert_eq!(map.len(), 3);
    assert_eq!(keys(&map), vec!["b", "a", "c"]);
    assert_eq!(map.get("a"), Some(&number(20)));
    assert_eq!(map.insert("d".to_string(), number(4)), None);
}

#[test]
fn shift_remove_keeps_the_order_of_the_rest() {
    let mut map = map_of(&[("a", 1), ("b", 2), ("c", 3), ("d", 4)]);
    assert_eq!(map.shift_remove("b"), Some(number(2)));
    assert_eq!(keys(&map), vec!["a", "c", "d"]);
    assert_eq!(map.shift_remove("b"), None);
    assert_eq!(map.len(), 3);
}

#[test]
fn swap_remove_moves_the_last_entry_into_the_gap() {
    let mut map = map_of(&[("a", 1), ("b", 2), ("c", 3), ("d", 4)]);
    assert_eq!(map.swap_remove("b"), Some(number(2)));
    assert_eq!(keys(&map), vec!["a", "d", "c"]);
    assert_eq!(map.swap_remove("c"), Some(number(3)));
    assert_eq!(keys(&map), vec!["a", "d"]);
    assert_eq!(map.swap_remove("x"), None);
    assert_eq!(keys(&map), vec!["a", "d"]);
}

#[test]
fn swap_remove_of_the_only_entry_empties_the_map() {
    let mut map = map_of(&[("a", 1)]);
    assert_eq!(map.swap_remove("a"), Some(number(1)));
    assert_eq!(map.len(), 0);
}

#[test]
fn extend_overwrites_in_place_and_appends_the_rest() {
    let mut map = map_of(&[("a", 1), ("b", 2)]);
    map.extend(map_of(&[("c", 3), ("a", 10), ("d", 4)]));
    assert_eq!(keys(&map), vec!["a", "b", "c", "d"]);
    assert_eq!(map.get("a"), Some(&number(10)));
    assert_eq!(map.get("b"), Some(&number(2)));
    assert_eq!(map.get("d"), Some(&number(4)));
}

#[test]
fn clone_of_a_map_holds_the_same_entries_in_order() {
    let map = map_of(&[("z", 1), ("y", 2), ("x", 3)]);
    let copy = map.clone();
    assert_eq!(keys(&copy), vec!["z", "y", "x"]);
    assert_eq!(copy.get("y"), Some(&number(2)));
    assert_eq!(map.len(), 3);
}

#[test]
fn clone_of_a_value_is_equal_to_it() {
    let value = ConfigKeyValue::Array(vec![
        ConfigKeyValue::Null,
        ConfigKeyValue::String("s".to_string()),
        ConfigKeyValue::Object(vec![
            ("k".to_string(), ConfigKeyValue::Bool(true)),
            ("n".to_string(), number(-3)),
        ]),
    ]);
    assert_eq!(value.clone(), value);
}
