use dynomite_derive::value::{Attribute, AttributeError, AttributeValue, Attributes};

fn s(text: &str) -> AttributeValue {
    AttributeValue::S(text.to_string())
}

#[test]
fn a_new_map_is_empty() {
    let attrs = Attributes::new();
    assert!(!attrs.contains_key("id"));
    assert_eq!(attrs.get("id"), None);
}

#[test]
fn insert_then_get() {
    let mut attrs = Attributes::new();
    assert_eq!(attrs.insert("id".to_string(), s("123")), None);
    assert!(attrs.contains_key("id"));
    assert_eq!(attrs.get("id"), Some(&s("123")));
    assert_eq!(attrs.get("ID"), None);
}

#[test]
fn insert_replaces_and_hands_back_the_old_value() {
    let mut attrs = Attributes::new();
    attrs.insert("id".to_string(), s("old"));
    attrs.insert("other".to_string(), AttributeValue::Bool(true));
    assert_eq!(attrs.insert("id".to_string(), s("new")), Some(s("old")));
    assert_eq!(attrs.get("id"), Some(&s("new")));
    assert_eq!(attrs.get("other"), Some(&AttributeValue::Bool(true)));
}

#[test]
fn remove_takes_the_value_out() {
    let mut attrs = Attributes::new();
    attrs.insert("a".to_string(), s("1"));
    attrs.insert("b".to_string(), s("2"));
    attrs.insert("c".to_string(), s("3"));
    assert_eq!(attrs.remove("b"), Some(s("2")));
    assert_eq!(attrs.remove("b"), None);
    assert_eq!(attrs.get("a"), Some(&s("1")));
    assert_eq!(attrs.get("b"), None);
    assert_eq!(attrs.get("c"), Some(&s("3")));
}

#[test]
fn remove_of_a_missing_name_changes_nothing() {
    let mut attrs = Attributes::new();
    attrs.insert("a".to_string(), s("1"));
    assert_eq!(attrs.remove("z"), None);
    assert_eq!(attrs.get("a"), Some(&s("1")));
}

#[test]
fn clone_copies_scalars_and_nested_values() {
    let mut inner = Attributes::new();
    inner.insert("x".to_string(), AttributeValue::N("1".to_string()));
    let values = vec![
        s("text"),
        AttributeValue::N("42".to_string()),
        AttributeValue::B(vec![1, 2, 3]),
        AttributeValue::Bool(false),
        AttributeValue::Null,
        AttributeValue::L(vec![s("a"), AttributeValue::L(vec![AttributeValue::Null])]),
        AttributeValue::M(inner),
        AttributeValue::Ss(vec!["a".to_string(), "b".to_string()]),
        AttributeValue::Ns(vec!["1".to_string()]),
        AttributeValue::Bs(vec![vec![0], vec![255, 1]]),
    ];
    for value in &values {
        assert_eq!(&value.clone(), value);
    }
}

#[test]
fn clone_of_a_map_keeps_names_and_values() {
    let mut attrs = Attributes::new();
    attrs.insert("a".to_string(), s("1"));
    attrs.insert("b".to_string(), AttributeValue::Bool(true));
    let copy = attrs.clone();
    assert_eq!(copy, attrs);
    assert_eq!(copy.get("a"), Some(&s("1")));
    assert_eq!(copy.get("b"), Some(&AttributeValue::Bool(true)));
}

#[test]
fn a_boolean_is_a_boolean_value() {
    assert_eq!(true.into_attr(), AttributeValue::Bool(true));
    assert_eq!(<bool as Attribute>::from_attr(AttributeValue::Bool(false)), Ok(false));
    assert_eq!(<bool as Attribute>::default_value(), false);
}

#[test]
fn a_boolean_is_read_off_no_other_kind() {
    assert_eq!(<bool as Attribute>::from_attr(s("true")), Err(AttributeError::InvalidType));
    assert_eq!(
        <bool as Attribute>::from_attr(AttributeValue::Null),
        Err(AttributeError::InvalidType)
    );
}

#[test]
fn a_string_is_a_string_value() {
    assert_eq!("text".to_string().into_attr(), s("text"));
    assert_eq!(<String as Attribute>::from_attr(s("text")), Ok("text".to_string()));
    assert_eq!(<String as Attribute>::default_value(), "");
}

#[test]
fn a_string_is_read_off_no_other_kind() {
    assert_eq!(
        <String as Attribute>::from_attr(AttributeValue::N("1".to_string())),
        Err(AttributeError::InvalidType)
    );
    assert_eq!(
        <String as Attribute>::from_attr(AttributeValue::Ss(vec!["a".to_string()])),
        Err(AttributeError::InvalidType)
    );
}

#[test]
fn maps_are_equal_whatever_the_order_they_were_filled_in() {
    let mut first = Attributes::new();
    first.insert("a".to_string(), s("1"));
    first.insert("b".to_string(), s("2"));
    first.insert("a".to_string(), s("3"));
    let mut second = Attributes::new();
    second.insert("b".to_string(), s("2"));
    second.insert("a".to_string(), s("3"));
    assert_eq!(first, second);
    assert_eq!(AttributeValue::M(first), AttributeValue::M(second));
}

#[test]
fn maps_differ_by_a_name_or_a_value() {
    let mut first = Attributes::new();
    first.insert("a".to_string(), s("1"));
    let mut other_value = Attributes::new();
    other_value.insert("a".to_string(), s("2"));
    let mut other_name = Attributes::new();
    other_name.insert("b".to_string(), s("1"));
    let mut more = Attributes::new();
    more.insert("a".to_string(), s("1"));
    more.insert("b".to_string(), s("1"));
    assert_ne!(first, other_value);
    assert_ne!(first, other_name);
    assert_ne!(first, more);
    assert_ne!(more, first);
    assert_ne!(first, Attributes::new());
    assert_ne!(Attributes::new(), first);
}

#[test]
fn values_are_equal_by_kind_and_content() {
    assert_eq!(s("1"), s("1"));
    assert_ne!(s("1"), AttributeValue::N("1".to_string()));
    assert_ne!(s("1"), s("2"));
    assert_eq!(AttributeValue::B(vec![1, 2]), AttributeValue::B(vec![1, 2]));
    assert_ne!(AttributeValue::B(vec![1, 2]), AttributeValue::B(vec![1]));
    assert_ne!(AttributeValue::B(vec![1, 2]), AttributeValue::B(vec![1, 3]));
    assert_ne!(AttributeValue::Bool(true), AttributeValue::Bool(false));
    assert_eq!(AttributeValue::Null, AttributeValue::Null);
    assert_ne!(AttributeValue::Null, AttributeValue::Bool(false));
    assert_eq!(
        AttributeValue::L(vec![s("a"), AttributeValue::Null]),
        AttributeValue::L(vec![s("a"), AttributeValue::Null])
    );
    assert_ne!(
        AttributeValue::L(vec![s("a"), AttributeValue::Null]),
        AttributeValue::L(vec![AttributeValue::Null, s("a")])
    );
    assert_ne!(AttributeValue::L(vec![s("a")]), AttributeValue::L(vec![]));
    assert_ne!(
        AttributeValue::Ss(vec!["a".to_string()]),
        AttributeValue::Ns(vec!["a".to_string()])
    );
    assert_ne!(
        AttributeValue::Ss(vec!["a".to_string(), "b".to_string()]),
        AttributeValue::Ss(vec!["b".to_string(), "a".to_string()])
    );
    assert_eq!(
        AttributeValue::Bs(vec![vec![1], vec![]]),
        AttributeValue::Bs(vec![vec![1], vec![]])
    );
    assert_ne!(AttributeValue::Bs(vec![vec![1]]), AttributeValue::Bs(vec![vec![2]]));
}

#[test]
fn an_attribute_value_is_stored_as_it_is() {
    assert_eq!(s("x").into_attr(), s("x"));
    assert_eq!(<AttributeValue as Attribute>::from_attr(s("x")), Ok(s("x")));
    assert_eq!(<AttributeValue as Attribute>::default_value(), AttributeValue::Null);
}
