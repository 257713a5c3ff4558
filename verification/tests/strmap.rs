use fastcall::strmap::StrMap;

#[test]
fn new_map_is_empty() {
    let map: StrMap<u32> = StrMap::new();
    assert!(map.is_empty());
    assert_eq!(map.len(), 0);
    assert!(map.get("a").is_none());
    assert!(!map.contains_key("a"));
    assert!(map.entry(0).is_none());
    assert_eq!(map.index_of("a"), None);
}

#[test]
fn insert_adds_at_the_end() {
    let mut map: StrMap<u32> = StrMap::new();
    map.insert("b".to_string(), 2);
    map.insert("a".to_string(), 1);
    map.insert("c".to_string(), 3);
    assert!(!map.is_empty());
    assert_eq!(map.len(), 3);
    assert_eq!(map.index_of("b"), Some(0));
    assert_eq!(map.index_of("a"), Some(1));
    assert_eq!(map.index_of("c"), Some(2));
    assert_eq!(map.get("a"), Some(&1));
    assert_eq!(map.entry(2), Some((&"c".to_string(), &3)));
    assert!(map.contains_key("c"));
    assert!(!map.contains_key("d"));
}

#[test]
fn insert_of_a_known_key_keeps_its_place() {
    let mut map: StrMap<u32> = StrMap::new();
    map.insert("b".to_string(), 2);
    map.insert("a".to_string(), 1);
    map.insert("b".to_string(), 20);
    assert_eq!(map.len(), 2);
    assert_eq!(map.entry(0), Some((&"b".to_string(), &20)));
    assert_eq!(map.entry(1), Some((&"a".to_string(), &1)));
    assert_eq!(map.get("b"), Some(&20));
}

#[test]
fn remove_takes_the_key_out() {
    let mut map: StrMap<u32> = StrMap::new();
    map.insert("a".to_string(), 1);
    map.insert("b".to_string(), 2);
    map.insert("c".to_string(), 3);
    assert_eq!(map.remove("b"), Some(2));
    assert_eq!(map.remove("b"), None);
    assert_eq!(map.remove("zz"), None);
    assert_eq!(map.len(), 2);
    assert_eq!(map.entry(0), Some((&"a".to_string(), &1)));
    assert_eq!(map.entry(1), Some((&"c".to_string(), &3)));
    assert!(map.get("b").is_none());
}

#[test]
fn keys_are_compared_by_their_characters() {
    let mut map: StrMap<u32> = StrMap::new();
    map.insert("".to_string(), 0);
    map.insert("é".to_string(), 1);
    map.insert("e".to_string(), 2);
    map.insert("E".to_string(), 3);
    assert_eq!(map.len(), 4);
    assert_eq!(map.get(""), Some(&0));
    assert_eq!(map.get("é"), Some(&1));
    assert_eq!(map.get("e"), Some(&2));
    assert_eq!(map.get("E"), Some(&3));
}
