use refactor_backend::text::{code_points, contains, ends_with, matches_at, starts_with};
use refactor_backend::KeyedList;

fn chars(text: &str) -> Vec<char> {
    text.chars().collect()
}

#[test]
fn keyed_list_binds_in_order_of_arrival() {
    let mut list: KeyedList<String> = KeyedList::new();
    assert_eq!(list.len(), 0);
    list.insert("b".to_string(), "2".to_string());
    list.insert("a".to_string(), "1".to_string());
    list.insert("b".to_string(), "3".to_string());
    assert_eq!(list.len(), 2);
    assert_eq!(list.key_at(0), "b");
    assert_eq!(list.value_at(0), "3");
    assert_eq!(list.key_at(1), "a");
    assert_eq!(list.get(&"a".to_string()), Some(&"1".to_string()));
    assert_eq!(list.get(&"c".to_string()), None);
    assert_eq!(list.position(&"a".to_string()), Some(1));
    assert_eq!(list.position(&"z".to_string()), None);
    assert!(list.is_well_formed());
}

#[test]
fn keyed_list_removes_bindings() {
    let mut list: KeyedList<String> = KeyedList::new();
    list.insert("a".to_string(), "1".to_string());
    list.insert("b".to_string(), "2".to_string());
    list.insert("c".to_string(), "3".to_string());
    assert_eq!(list.remove(&"b".to_string()), Some("2".to_string()));
    assert_eq!(list.remove(&"b".to_string()), None);
    assert_eq!(list.len(), 2);
    assert_eq!(list.key_at(1), "c");
    assert_eq!(list.remove_at(0), ("a".to_string(), "1".to_string()));
    assert_eq!(list.len(), 1);
    list.clear();
    assert_eq!(list.len(), 0);
}

#[test]
fn keyed_list_notices_a_repeated_key() {
    let mut list: KeyedList<String> = KeyedList::new();
    list.pairs.push(("a".to_string(), "1".to_string()));
    list.pairs.push(("b".to_string(), "2".to_string()));
    assert!(list.is_well_formed());
    list.pairs.push(("a".to_string(), "3".to_string()));
    assert!(!list.is_well_formed());
}

#[test]
fn text_search_on_code_points() {
    assert_eq!(code_points("héllo"), chars("héllo"));
    assert!(starts_with(&chars("HashMap"), &chars("Hash")));
    assert!(starts_with(&chars("HashMap"), &chars("")));
    assert!(!starts_with(&chars("Hash"), &chars("HashMap")));
    assert!(ends_with(&chars("HashMap"), &chars("Map")));
    assert!(ends_with(&chars("HashMap"), &chars("")));
    assert!(!ends_with(&chars("Map"), &chars("HashMap")));
    assert!(contains(&chars("std::collections"), &chars("::col")));
    assert!(contains(&chars("abc"), &chars("")));
    assert!(contains(&chars("abc"), &chars("abc")));
    assert!(contains(&chars("abc"), &chars("c")));
    assert!(!contains(&chars("abc"), &chars("abcd")));
    assert!(!contains(&chars("abc"), &chars("ca")));
    assert!(matches_at(&chars("abc"), &chars("bc"), 1));
    assert!(!matches_at(&chars("abc"), &chars("bc"), 2));
    assert!(matches_at(&chars("abc"), &chars(""), 3));
    assert!(!matches_at(&chars("abc"), &chars(""), 4));
}
