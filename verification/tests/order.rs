//! Ordered sets and maps of texts.

use connector_supabase::order::TextMap;
use connector_supabase::order::TextSet;

#[test]
fn a_set_holds_each_text_once_in_order() {
    let mut set = TextSet::new();
    assert!(set.insert("b".into()));
    assert!(set.insert("\u{e9}".into()));
    assert!(set.insert("a".into()));
    assert!(set.insert("B".into()));
    assert!(set.insert("ab".into()));
    assert!(set.insert(String::new()));
    assert!(!set.insert("a".into()));
    assert_eq!(set.items(), &vec!["", "B", "a", "ab", "b", "\u{e9}"]);
    assert!(set.contains("ab"));
    assert!(!set.contains("abc"));
}

#[test]
fn sets_are_the_same_whatever_the_order_of_insertion() {
    let mut first = TextSet::new();
    let mut second = TextSet::new();
    for text in ["c", "a", "b"] {
        first.insert(text.into());
    }
    for text in ["a", "b", "c", "a"] {
        second.insert(text.into());
    }
    assert!(first.same(&second));
    assert_eq!(first, second.clone());
    second.insert("d".into());
    assert!(!first.same(&second));
    assert!(!second.same(&first));
}

#[test]
fn a_map_holds_the_last_value_of_each_key_in_order() {
    let mut map = TextMap::new();
    assert!(map.is_empty());
    map.insert("b".into(), false);
    map.insert("a".into(), true);
    map.insert("b".into(), true);
    assert!(!map.is_empty());
    assert_eq!(map.get("b"), Some(&true));
    assert_eq!(map.get("c"), None);
    assert_eq!(
        map.entries(),
        &vec![("a".to_owned(), true), ("b".to_owned(), true)]
    );
}
