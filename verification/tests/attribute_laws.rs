use attr_graph::attributes::Attributes;
use attr_graph::text::AttributeText;
use std::collections::HashMap;

#[test]
fn a_name_never_set_has_no_value() {
    let mut attrs = Attributes::new();
    assert_eq!(attrs.get("k"), None);
    attrs.set("other", "v");
    attrs.extend(&[("a", "1"), ("b", "2")]);
    assert_eq!(attrs.get("k"), None);
    assert_eq!(attrs.get(""), None);
}

#[test]
fn set_then_get_returns_the_value() {
    let mut attrs = Attributes::new();
    attrs.set("k", "v");
    assert_eq!(attrs.get("k"), Some(&"v".to_string()));
}

#[test]
fn set_grows_the_store_by_one_for_a_new_name_and_by_none_for_an_old_one() {
    let mut attrs = Attributes::new();
    assert_eq!(attrs.len(), 0);
    attrs.set("a", "1");
    assert_eq!(attrs.len(), 1);
    attrs.set("b", "2");
    assert_eq!(attrs.len(), 2);
    attrs.set("a", "3");
    assert_eq!(attrs.len(), 2);
    assert_eq!(attrs.get("a"), Some(&"3".to_string()));
    assert_eq!(attrs.get("b"), Some(&"2".to_string()));
}

#[test]
fn set_takes_owned_and_borrowed_strings() {
    let mut attrs = Attributes::new();
    let name = String::from("owned");
    let value = String::from("value");
    attrs.set(&name, &value);
    attrs.set(name.clone(), String::from("again"));
    attrs.set("plain", value);
    assert_eq!(attrs.len(), 2);
    assert_eq!(attrs.get(&name), Some(&"again".to_string()));
    assert_eq!(attrs.get(name), Some(&"again".to_string()));
    assert_eq!(attrs.get("plain"), Some(&"value".to_string()));
}

#[test]
fn the_empty_name_and_the_empty_value_are_ordinary() {
    let mut attrs = Attributes::new();
    attrs.set("", "");
    assert_eq!(attrs.len(), 1);
    assert!(!attrs.is_empty());
    assert_eq!(attrs.get(""), Some(&String::new()));
}

#[test]
fn extend_with_a_repeated_name_keeps_the_later_value() {
    let mut attrs = Attributes::new();
    attrs.extend(&[("k", "first"), ("other", "x"), ("k", "second")]);
    assert_eq!(attrs.len(), 2);
    assert_eq!(attrs.get("k"), Some(&"second".to_string()));
    assert_eq!(attrs.get("other"), Some(&"x".to_string()));
}

#[test]
fn extend_overwrites_what_was_stored_before() {
    let mut attrs = Attributes::new();
    attrs.set("k", "old");
    attrs.set("kept", "same");
    attrs.extend(&[("k", "new")]);
    assert_eq!(attrs.len(), 2);
    assert_eq!(attrs.get("k"), Some(&"new".to_string()));
    assert_eq!(attrs.get("kept"), Some(&"same".to_string()));
}

#[test]
fn extend_is_the_same_as_setting_each_pair_in_order() {
    let pairs = vec![("a", "1"), ("b", "2"), ("a", "3"), ("c", "4"), ("b", "5")];
    let mut extended = Attributes::new();
    extended.set("a", "0");
    extended.extend(&pairs);
    let mut one_by_one = Attributes::new();
    one_by_one.set("a", "0");
    for (name, value) in pairs.iter() {
        one_by_one.set(*name, *value);
    }
    assert_eq!(extended, one_by_one);
    assert_eq!(extended.len(), 3);
    assert_eq!(extended.get("a"), Some(&"3".to_string()));
    assert_eq!(extended.get("b"), Some(&"5".to_string()));
    assert_eq!(extended.get("c"), Some(&"4".to_string()));
}

#[test]
fn extend_with_nothing_changes_nothing() {
    let mut attrs = Attributes::new();
    attrs.set("k", "v");
    let nothing: [(&str, &str); 0] = [];
    attrs.extend(&nothing);
    assert_eq!(attrs.len(), 1);
    assert_eq!(attrs.get("k"), Some(&"v".to_string()));
}

#[test]
fn extend_takes_pairs_of_owned_strings() {
    let pairs = vec![(String::from("a"), String::from("1"))];
    let mut attrs = Attributes::new();
    attrs.extend(&pairs);
    assert_eq!(attrs.get("a"), Some(&"1".to_string()));
    assert_eq!(pairs.len(), 1);
}

#[test]
fn two_extends_are_one_extend_of_both_batches() {
    let mut twice = Attributes::new();
    twice.extend(&[("a", "1"), ("b", "2")]);
    twice.extend(&[("b", "3"), ("c", "4")]);
    let mut once = Attributes::new();
    once.extend(&[("a", "1"), ("b", "2"), ("b", "3"), ("c", "4")]);
    assert_eq!(twice, once);
}

#[test]
fn stores_are_equal_whatever_the_order_of_writing() {
    let mut one = Attributes::new();
    one.set("x", "1");
    one.set("y", "2");
    let mut other = Attributes::new();
    other.set("y", "2");
    other.set("x", "1");
    assert_eq!(one, other);
    assert!(one == other);
}

#[test]
fn stores_that_differ_are_not_equal() {
    let mut one = Attributes::new();
    one.set("x", "1");
    let mut other_value = Attributes::new();
    other_value.set("x", "2");
    let mut other_name = Attributes::new();
    other_name.set("y", "1");
    let mut more = Attributes::new();
    more.set("x", "1");
    more.set("y", "2");
    assert_ne!(one, other_value);
    assert_ne!(one, other_name);
    assert_ne!(one, more);
    assert_ne!(more, one);
    assert_ne!(one, Attributes::new());
}

#[test]
fn a_store_equals_a_hash_map_with_the_same_content() {
    let mut attrs = Attributes::new();
    attrs.set("x", "1");
    attrs.set("y", "2");
    let mut map: HashMap<String, String> = HashMap::new();
    map.insert("y".to_string(), "2".to_string());
    assert!(attrs != map);
    map.insert("x".to_string(), "1".to_string());
    assert!(attrs == map);
    map.insert("x".to_string(), "other".to_string());
    assert!(attrs != map);
    map.insert("x".to_string(), "1".to_string());
    map.insert("z".to_string(), "3".to_string());
    assert!(attrs != map);
}

#[test]
fn an_empty_store_equals_an_empty_hash_map() {
    let map: HashMap<String, String> = HashMap::new();
    assert!(Attributes::new() == map);
    let mut attrs = Attributes::new();
    attrs.set("k", "v");
    assert!(attrs != map);
}

#[test]
fn default_is_empty() {
    let attrs = Attributes::default();
    assert!(attrs.is_empty());
    assert_eq!(attrs.len(), 0);
    assert_eq!(attrs, Attributes::new());
}

#[test]
fn is_empty_follows_len() {
    let mut attrs = Attributes::new();
    assert!(attrs.is_empty());
    attrs.set("k", "v");
    assert!(!attrs.is_empty());
    assert_eq!(attrs.len(), 1);
}

#[test]
fn a_clone_holds_the_same_and_changes_alone() {
    let mut attrs = Attributes::new();
    attrs.extend(&[("a", "1"), ("b", "2")]);
    let mut copy = attrs.clone();
    assert_eq!(copy, attrs);
    copy.set("a", "changed");
    copy.set("c", "3");
    assert_eq!(attrs.get("a"), Some(&"1".to_string()));
    assert_eq!(attrs.len(), 2);
    assert_eq!(copy.len(), 3);
    assert_ne!(copy, attrs);
}

#[test]
fn names_are_compared_exactly() {
    let mut attrs = Attributes::new();
    attrs.set("Key", "upper");
    attrs.set("key", "lower");
    attrs.set("key ", "spaced");
    attrs.set("ké", "accent");
    assert_eq!(attrs.len(), 4);
    assert_eq!(attrs.get("Key"), Some(&"upper".to_string()));
    assert_eq!(attrs.get("key"), Some(&"lower".to_string()));
    assert_eq!(attrs.get("key "), Some(&"spaced".to_string()));
    assert_eq!(attrs.get("ké"), Some(&"accent".to_string()));
    assert_eq!(attrs.get("ke"), None);
}

#[test]
fn texts_convert_to_the_same_string() {
    let owned = String::from("text");
    assert_eq!("text".to_text(), "text");
    assert_eq!("text".into_text(), "text");
    assert_eq!(owned.to_text(), "text");
    assert_eq!((&owned).to_text(), "text");
    assert_eq!((&owned).into_text(), "text");
    assert_eq!(owned.into_text(), "text");
}
