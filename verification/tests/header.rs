use http_request::header::{Header, HeaderMap};

fn pair(name: &str, value: &str) -> (String, String) {
    (String::from(name), String::from(value))
}

#[test]
fn new_map_is_empty() {
    let map = HeaderMap::new();
    assert!(map.is_empty());
    assert_eq!(map.len(), 0);
    assert_eq!(map.get("Accept"), None);
    assert_eq!(map.get_key_value("Accept"), None);
    assert_eq!(map, HeaderMap::default());
}

#[test]
fn insert_adds_an_entry() {
    let mut map = HeaderMap::new();
    assert_eq!(map.insert(String::from("Accept"), String::from("*/*")), None);
    assert_eq!(map.len(), 1);
    assert!(!map.is_empty());
    assert_eq!(map.get("Accept"), Some(&String::from("*/*")));
    assert_eq!(
        map.get_key_value("Accept"),
        Some((&String::from("Accept"), &String::from("*/*")))
    );
    assert_eq!(map.get("accept"), None);
}

#[test]
fn insert_overwrites_on_collision() {
    let mut map = HeaderMap::new();
    assert_eq!(map.insert(String::from("X"), String::from("1")), None);
    assert_eq!(map.insert(String::from("Y"), String::from("a")), None);
    assert_eq!(
        map.insert(String::from("X"), String::from("2")),
        Some(String::from("1"))
    );
    assert_eq!(map.len(), 2);
    assert_eq!(map.get("X"), Some(&String::from("2")));
    assert_eq!(map.get("Y"), Some(&String::from("a")));
}

#[test]
fn names_are_compared_character_for_character() {
    let mut map = HeaderMap::new();
    map.insert(String::from("caf\u{e9}"), String::from("1"));
    map.insert(String::from("cafe\u{301}"), String::from("2"));
    map.insert(String::from("cafe"), String::from("3"));
    assert_eq!(map.len(), 3);
    assert_eq!(map.get("caf\u{e9}"), Some(&String::from("1")));
    assert_eq!(map.get("cafe\u{301}"), Some(&String::from("2")));
    assert_eq!(map.get("cafe"), Some(&String::from("3")));
    assert_eq!(map.get("caf"), None);
    assert_eq!(map.get("cafes"), None);
}

#[test]
fn from_pairs_inserts_in_order() {
    let map = HeaderMap::from_pairs(vec![pair("A", "1"), pair("B", "2"), pair("A", "3")]);
    assert_eq!(map.len(), 2);
    assert_eq!(map.get("A"), Some(&String::from("3")));
    assert_eq!(map.get("B"), Some(&String::from("2")));
    assert!(HeaderMap::from_pairs(Vec::new()).is_empty());
}

#[test]
fn into_pairs_gives_each_name_once() {
    let mut map = HeaderMap::new();
    map.insert(String::from("A"), String::from("1"));
    map.insert(String::from("B"), String::from("2"));
    map.insert(String::from("A"), String::from("3"));
    let mut pairs = map.clone().into_pairs();
    pairs.sort();
    assert_eq!(pairs, vec![pair("A", "3"), pair("B", "2")]);
    assert_eq!(HeaderMap::from_pairs(map.clone().into_pairs()), map);
}

#[test]
fn maps_compare_without_regard_to_order() {
    let a = HeaderMap::from_pairs(vec![pair("A", "1"), pair("B", "2")]);
    let b = HeaderMap::from_pairs(vec![pair("B", "2"), pair("A", "1")]);
    assert_eq!(a, b);
    assert_eq!(a.clone(), a);
    assert_ne!(a, HeaderMap::from_pairs(vec![pair("A", "1")]));
    assert_ne!(a, HeaderMap::from_pairs(vec![pair("A", "1"), pair("B", "3")]));
    assert_ne!(a, HeaderMap::from_pairs(vec![pair("A", "1"), pair("C", "2")]));
    assert_ne!(HeaderMap::new(), a);
}

#[test]
fn header_wraps_a_map_without_loss() {
    let map = HeaderMap::from_pairs(vec![pair("A", "1"), pair("B", "2")]);
    let header = Header::from(map.clone());
    assert_eq!(header.get_map(), &map);
    assert_eq!(header.get_map().get("A"), Some(&String::from("1")));
    assert_eq!(header.clone(), header);
    let back: HeaderMap = header.into();
    assert_eq!(back, map);
    let again: Header = back.into();
    assert_eq!(again.map, map);
}

#[test]
fn default_header_is_empty() {
    let header = Header::default();
    assert!(header.get_map().is_empty());
    assert_eq!(header, Header::from(HeaderMap::new()));
}
