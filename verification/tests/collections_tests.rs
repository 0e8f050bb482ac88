use worktree_dashboard::collections::{PathMap, TextMap, TextSet};

#[test]
fn map_keeps_the_last_value_of_a_key() {
    let mut map = TextMap::new();
    assert!(map.get("a").is_none());
    map.insert("a".to_string(), 1);
    map.insert("b".to_string(), 2);
    map.insert("a".to_string(), 3);
    assert_eq!(map.get("a"), Some(&3));
    assert_eq!(map.get("b"), Some(&2));
    assert!(map.get("c").is_none());
}

#[test]
fn set_holds_what_was_inserted() {
    let mut set = TextSet::new();
    assert!(!set.contains("a"));
    set.insert("a".to_string());
    set.insert("a".to_string());
    assert!(set.contains("a"));
    assert!(!set.contains("b"));
}

#[test]
fn path_map_knows_a_path_in_every_spelling() {
    let mut map = PathMap::new();
    map.insert("/a/b".to_string(), 1);
    map.insert("/a//b/".to_string(), 2);
    map.insert("a/b".to_string(), 3);
    assert_eq!(map.get("/a/./b"), Some(&2));
    assert_eq!(map.get("a/b/"), Some(&3));
    assert!(map.get("/a/../a/b").is_none());
}
