use attr_graph::attributes::{Attributes, AttributesContainer};
use attr_graph::text::AttributeText;
use std::collections::HashMap;

#[test]
fn test_init() {
    let attrs = Attributes::new();
    assert_eq!(attrs.is_empty(), true);
}

#[test]
fn test_extend_slice() {
    let mut attrs = Attributes::new();

    attrs.extend(&[("hello", "world"), ("goodbye", "me")]);
    assert_eq!(attrs.len(), 2);
    let expected = "world".to_string();
    assert_eq!(attrs.get("hello"), Some(&expected));
    let expected = "me".to_string();
    assert_eq!(attrs.get("goodbye"), Some(&expected));
}

#[test]
fn test_extend_vec() {
    let mut attrs = Attributes::new();

    attrs.extend(&vec![
        ("attr1", "val1"),
        ("attr2", "val2"),
        ("attr3", "val3"),
    ]);
    assert_eq!(attrs.len(), 3);
    let expected = "val1".to_string();
    assert_eq!(attrs.get("attr1"), Some(&expected));
    let expected = "val2".to_string();
    assert_eq!(attrs.get("attr2"), Some(&expected));
    let expected = "val3".to_string();
    assert_eq!(attrs.get("attr3"), Some(&expected));
}

#[test]
fn test_multiple_extend() {
    let mut attrs = Attributes::new();

    attrs.extend(&vec![("attr1", "val1"), ("attr2", "val2")]);
    assert_eq!(attrs.len(), 2);
    let expected = "val1".to_string();
    assert_eq!(attrs.get("attr1"), Some(&expected));
    let expected = "val2".to_string();
    assert_eq!(attrs.get("attr2"), Some(&expected));

    attrs.extend(&[("attr3", "val3")]);
    assert_eq!(attrs.len(), 3);

    let expected = "val3".to_string();
    assert_eq!(attrs.get("attr3"), Some(&expected));
}

#[test]
fn test_set() {
    let mut attrs = Attributes::new();

    attrs.set("Hello", "World");
    assert_eq!(attrs.len(), 1);
    assert_eq!(attrs.get("Hello"), Some(&"World".to_string()));

    attrs.set("AnotherAttr", "Val");
    assert_eq!(attrs.len(), 2);
    assert_eq!(attrs.get("AnotherAttr"), Some(&"Val".to_string()));

    attrs.set("Hello", "Val1");
    assert_eq!(attrs.len(), 2);
    assert_eq!(attrs.get("Hello"), Some(&"Val1".to_string()));
}

#[test]
fn test_eq() {
    let mut attrs = Attributes::new();

    attrs.extend(&[("attr1", "val1"), ("attr2", "val2")]);
    let mut expected: HashMap<String, String> = HashMap::new();
    expected.insert("attr1".to_string(), "val1".to_string());
    expected.insert("attr2".to_string(), "val2".to_string());

    assert_eq!(attrs, expected);
}

struct SomeStruct {
    pub attrs: Attributes,
}

impl SomeStruct {
    pub fn new() -> Self {
        SomeStruct {
            attrs: Attributes::new(),
        }
    }
}

impl AttributesContainer for SomeStruct {
    fn get_attr<T>(&self, name: T) -> Option<&str>
    where
        T: AttributeText,
    {
        self.attrs.get(name).map(|v| v.as_str())
    }

    fn with_attrs<K, V>(mut self, attrs: &[(K, V)]) -> Self
    where
        K: AttributeText,
        V: AttributeText,
    {
        self.attrs.extend(attrs);
        self
    }
}

#[test]
fn test_container() {
    let container = SomeStruct::new();

    assert_eq!(container.get_attr("attr1"), None);
}

#[test]
fn test_container_extend() {
    let container = SomeStruct::new().with_attrs(&[("attr1", "val1"), ("attr2", "val2")]);

    assert_eq!(container.attrs.len(), 2);
    assert_eq!(container.get_attr("attr1"), Some("val1"));
    assert_eq!(container.get_attr("attr2"), Some("val2"));
}
