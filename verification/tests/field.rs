use dynomite_derive::decl::{Attr, Field, RawAttribute};
use dynomite_derive::field::{
    collect_item_fields, count_partition_keys, find_partition_key, find_sort_key, is_dynomite,
    parse_attrs, ItemField,
};

fn dynomite(args: Vec<Attr>, tokens: &str) -> RawAttribute {
    RawAttribute { path: "dynomite".to_string(), args, tokens: tokens.to_string() }
}

fn other(path: &str, tokens: &str) -> RawAttribute {
    RawAttribute { path: path.to_string(), args: Vec::new(), tokens: tokens.to_string() }
}

fn field(name: &str, attrs: Vec<RawAttribute>) -> Field {
    Field { attrs, vis: String::new(), ident: name.to_string(), ty: "String".to_string() }
}

fn rename(name: &str) -> Attr {
    Attr::Rename(name.to_string())
}

#[test]
fn only_the_path_dynomite_holds_annotations() {
    assert!(is_dynomite("dynomite"));
    assert!(!is_dynomite("Dynomite"));
    assert!(!is_dynomite("dynomite "));
    assert!(!is_dynomite(":: dynomite"));
    assert!(!is_dynomite("dynomite :: rename"));
    assert!(!is_dynomite("doc"));
    assert!(!is_dynomite(""));
}

#[test]
fn parse_attrs_of_nothing_is_empty() {
    assert_eq!(parse_attrs(&[]), Vec::<Attr>::new());
}

#[test]
fn parse_attrs_keeps_only_dynomite_attributes() {
    let attrs = vec![
        other("doc", "#[doc = \"the id\"]"),
        dynomite(vec![Attr::PartitionKey], "#[dynomite(partition_key)]"),
        other("serde", "#[serde(rename = \"x\")]"),
        RawAttribute {
            path: "serde".to_string(),
            args: vec![Attr::SortKey],
            tokens: "#[serde(sort_key)]".to_string(),
        },
    ];
    assert_eq!(parse_attrs(&attrs), vec![Attr::PartitionKey]);
}

#[test]
fn parse_attrs_compares_the_path_exactly() {
    let attrs = vec![
        RawAttribute {
            path: "Dynomite".to_string(),
            args: vec![Attr::SortKey],
            tokens: String::new(),
        },
        RawAttribute {
            path: "dynomite::x".to_string(),
            args: vec![Attr::SortKey],
            tokens: String::new(),
        },
        RawAttribute { path: String::new(), args: vec![Attr::SortKey], tokens: String::new() },
    ];
    assert_eq!(parse_attrs(&attrs), Vec::<Attr>::new());
}

#[test]
fn parse_attrs_flattens_in_source_order() {
    let attrs = vec![
        dynomite(vec![Attr::SortKey, rename("a")], "#[dynomite(sort_key, rename = \"a\")]"),
        other("doc", "#[doc = \"\"]"),
        dynomite(vec![], "#[dynomite()]"),
        dynomite(vec![Attr::Default], "#[dynomite(default)]"),
    ];
    assert_eq!(parse_attrs(&attrs), vec![Attr::SortKey, rename("a"), Attr::Default]);
}

#[test]
fn a_plain_field_has_no_role_and_its_own_name() {
    let f = field("id", vec![other("doc", "#[doc = \"x\"]")]);
    let item = ItemField::new(&f);
    assert!(!item.is_partition_key());
    assert!(!item.is_sort_key());
    assert!(!item.is_default_when_absent());
    assert_eq!(item.deser_name(), "id");
    assert_eq!(item.attrs, Vec::<Attr>::new());
}

#[test]
fn roles_are_read_off_the_annotations() {
    let f = field(
        "id",
        vec![dynomite(vec![Attr::PartitionKey, Attr::Default], "#[dynomite(partition_key, default)]")],
    );
    let item = ItemField::new(&f);
    assert!(item.is_partition_key());
    assert!(!item.is_sort_key());
    assert!(item.is_default_when_absent());

    let f = field("at", vec![dynomite(vec![Attr::SortKey], "#[dynomite(sort_key)]")]);
    let item = ItemField::new(&f);
    assert!(!item.is_partition_key());
    assert!(item.is_sort_key());
    assert!(!item.is_default_when_absent());
}

#[test]
fn a_renamed_field_is_stored_under_the_new_name() {
    let f = field(
        "snake_case",
        vec![dynomite(vec![rename("actualName")], "#[dynomite(rename = \"actualName\")]")],
    );
    assert_eq!(ItemField::new(&f).deser_name(), "actualName");
}

#[test]
fn the_first_rename_wins() {
    let f = field(
        "x",
        vec![
            dynomite(vec![Attr::SortKey, rename("first")], ""),
            dynomite(vec![rename("second")], ""),
        ],
    );
    assert_eq!(ItemField::new(&f).deser_name(), "first");
}

#[test]
fn a_rename_on_another_attribute_does_not_count() {
    let f = field(
        "x",
        vec![RawAttribute {
            path: "serde".to_string(),
            args: vec![rename("wrong")],
            tokens: String::new(),
        }],
    );
    assert_eq!(ItemField::new(&f).deser_name(), "x");
}

#[test]
fn a_rename_is_no_role() {
    let f = field("x", vec![dynomite(vec![rename("partition_key")], "")]);
    let item = ItemField::new(&f);
    assert!(!item.is_partition_key());
    assert!(!item.is_sort_key());
    assert!(!item.is_default_when_absent());
}

#[test]
fn clone_of_an_item_field_is_equal() {
    let f = field("x", vec![dynomite(vec![rename("y"), Attr::Default], "#[dynomite(..)]")]);
    let item = ItemField::new(&f);
    assert_eq!(item.clone(), item);
    assert_eq!(f.clone(), f);
}

#[test]
fn keys_are_found_first_come_first() {
    let fields = vec![
        field("a", vec![]),
        field("b", vec![dynomite(vec![Attr::SortKey], "")]),
        field("c", vec![dynomite(vec![Attr::PartitionKey], "")]),
        field("d", vec![dynomite(vec![Attr::PartitionKey, Attr::SortKey], "")]),
    ];
    let items = collect_item_fields(&fields);
    assert_eq!(items.len(), 4);
    assert_eq!(find_partition_key(&items), Some(2));
    assert_eq!(find_sort_key(&items), Some(1));
    assert_eq!(count_partition_keys(&items), 2);
}

#[test]
fn no_key_is_found_where_there_is_none() {
    let fields = vec![field("a", vec![]), field("b", vec![dynomite(vec![Attr::Default], "")])];
    let items = collect_item_fields(&fields);
    assert_eq!(find_partition_key(&items), None);
    assert_eq!(find_sort_key(&items), None);
    assert_eq!(count_partition_keys(&items), 0);
    assert_eq!(count_partition_keys(&[]), 0);
}
