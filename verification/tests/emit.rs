use dynomite_derive::attribute::{expand_attribute, make_dynomite_attr};
use dynomite_derive::attributes::{
    expand_attributes, get_from_attributes_function, get_from_attributes_trait,
    get_to_attribute_map_function, get_to_attribute_map_trait, make_dynomite_attributes,
};
use dynomite_derive::decl::{Attr, Data, DeriveInput, Field, Fields, RawAttribute, Variant};
use dynomite_derive::error::ExpandError;
use dynomite_derive::field::{collect_item_fields, ItemField};
use dynomite_derive::item::{
    expand_item, get_dynomite_item_traits, get_item_impls, get_item_trait, get_key_inserter,
    get_key_struct, key_declaration, make_dynomite_item,
};
use dynomite_derive::{derive_attribute, derive_attributes, derive_item};

/// The tokens of `text`, printed in one fixed way.
fn tokens(text: &str) -> String {
    text.parse::<proc_macro2::TokenStream>().expect("tokens").to_string()
}

/// The first literal among `stream`, looking into groups.
fn first_literal(stream: proc_macro2::TokenStream) -> Option<String> {
    for tree in stream {
        match tree {
            proc_macro2::TokenTree::Literal(literal) => return Some(literal.to_string()),
            proc_macro2::TokenTree::Group(group) => {
                if let Some(found) = first_literal(group.stream()) {
                    return Some(found);
                }
            }
            _ => {}
        }
    }
    None
}

/// Whether `text` is a sequence of Rust items.
fn is_items(text: &str) -> bool {
    syn::parse_str::<syn::File>(text).is_ok()
}

fn dynomite(args: Vec<Attr>, tokens: &str) -> RawAttribute {
    RawAttribute { path: "dynomite".to_string(), args, tokens: tokens.to_string() }
}

fn field(name: &str, ty: &str, attrs: Vec<RawAttribute>) -> Field {
    Field { attrs, vis: String::new(), ident: name.to_string(), ty: ty.to_string() }
}

fn rename(name: &str) -> Attr {
    Attr::Rename(name.to_string())
}

fn name(text: &str) -> String {
    text.to_string()
}

/// `struct Order` with a partition key, a renamed sort key, a field that may
/// be absent and a plain field.
fn order() -> Vec<Field> {
    vec![
        Field {
            attrs: vec![
                RawAttribute {
                    path: "doc".to_string(),
                    args: Vec::new(),
                    tokens: "#[doc = \"the id\"]".to_string(),
                },
                dynomite(vec![Attr::PartitionKey], "#[dynomite(partition_key)]"),
            ],
            vis: "pub".to_string(),
            ident: "id".to_string(),
            ty: "String".to_string(),
        },
        field(
            "placed_at",
            "u64",
            vec![dynomite(
                vec![Attr::SortKey, rename("placedAt")],
                "#[dynomite(sort_key, rename = \"placedAt\")]",
            )],
        ),
        field("note", "Option<String>", vec![dynomite(vec![Attr::Default], "#[dynomite(default)]")]),
        field("total", "u32", vec![]),
    ]
}

fn person() -> Vec<Field> {
    vec![field("id", "String", vec![dynomite(vec![Attr::PartitionKey], "#[dynomite(partition_key)]")])]
}

fn declaration(vis: &str, ident: &str, data: Data) -> DeriveInput {
    DeriveInput { vis: vis.to_string(), ident: ident.to_string(), data }
}

const ORDER_FROM_ATTRS_FN: &str = r#"
    fn from_attrs(mut attrs: ::dynomite::Attributes) -> ::std::result::Result<Self, ::dynomite::AttributeError> {
        ::std::result::Result::Ok(Self {
            id: ::dynomite::Attribute::from_attr(
                attrs.remove("id")
                    .ok_or(::dynomite::AttributeError::MissingField { name: "id".to_string() })?
            )?,
            placed_at: ::dynomite::Attribute::from_attr(
                attrs.remove("placedAt")
                    .ok_or(::dynomite::AttributeError::MissingField { name: "placedAt".to_string() })?
            )?,
            note: match attrs.remove("note") {
                Some(field) => ::dynomite::Attribute::from_attr(field)?,
                _ => ::std::default::Default::default()
            },
            total: ::dynomite::Attribute::from_attr(
                attrs.remove("total")
                    .ok_or(::dynomite::AttributeError::MissingField { name: "total".to_string() })?
            )?
        })
    }
"#;

const ORDER_FROM_FN: &str = r#"
    fn from(item: Order) -> Self {
        let mut values = Self::new();
        values.insert("id".to_string(), ::dynomite::Attribute::into_attr(item.id));
        values.insert("placedAt".to_string(), ::dynomite::Attribute::into_attr(item.placed_at));
        values.insert("note".to_string(), ::dynomite::Attribute::into_attr(item.note));
        values.insert("total".to_string(), ::dynomite::Attribute::into_attr(item.total));
        values
    }
"#;

const ORDER_ITEM_TRAIT: &str = r#"
    impl ::dynomite::Item for Order {
        fn key(&self) -> ::std::collections::HashMap<String, ::dynomite::dynamodb::AttributeValue> {
            let mut keys = ::std::collections::HashMap::new();
            keys.insert("id".to_string(), ::dynomite::Attribute::into_attr(self.id.clone()));
            keys.insert("placedAt".to_string(), ::dynomite::Attribute::into_attr(self.placed_at.clone()));
            keys
        }
    }
"#;

const ORDER_KEY_STRUCT: &str = r#"
    #[derive(::dynomite::Attributes, Debug, Clone, PartialEq)]
    pub(crate) struct OrderKey {
        #[doc = "the id"]
        #[dynomite(partition_key)]
        pub id: String,
        #[dynomite(sort_key, rename = "placedAt")]
        placed_at: u64
    }
"#;

const ORDER_NESTED: &str = r#"
    impl ::dynomite::Attribute for Order {
        fn into_attr(self: Self) -> ::dynomite::AttributeValue {
            ::dynomite::AttributeValue {
                m: Some(self.into()),
                ..::dynomite::AttributeValue::default()
            }
        }
        fn from_attr(value: ::dynomite::AttributeValue) -> Result<Self, ::dynomite::AttributeError> {
            use ::dynomite::FromAttributes;
            value
                .m
                .ok_or(::dynomite::AttributeError::InvalidType)
                .and_then(Self::from_attrs)
        }
    }
"#;

fn order_from_attrs_trait() -> String {
    format!("impl ::dynomite::FromAttributes for Order {{ {} }}", ORDER_FROM_ATTRS_FN)
}

fn order_from_trait() -> String {
    format!("impl ::std::convert::From<Order> for ::dynomite::Attributes {{ {} }}", ORDER_FROM_FN)
}

#[test]
fn the_enum_impl_has_one_arm_for_each_case_each_way() {
    let variants =
        vec![Variant { ident: name("Pending") }, Variant { ident: name("Shipped") }];
    let text = make_dynomite_attr(&name("Status"), &variants);
    let expected = r#"
        impl ::dynomite::Attribute for Status {
            fn into_attr(self) -> ::dynomite::dynamodb::AttributeValue {
                let arm = match self {
                    Status::Pending => stringify!(Pending).to_string(),
                    Status::Shipped => stringify!(Shipped).to_string(),
                };
                ::dynomite::dynamodb::AttributeValue {
                    s: ::std::option::Option::Some(arm),
                    ..::std::default::Default::default()
                }
            }
            fn from_attr(value: ::dynomite::dynamodb::AttributeValue) -> ::std::result::Result<Self, ::dynomite::AttributeError> {
                value.s.ok_or(::dynomite::AttributeError::InvalidType)
                    .and_then(|value| match &value[..] {
                        stringify!(Pending) => ::std::result::Result::Ok(Status::Pending),
                        stringify!(Shipped) => ::std::result::Result::Ok(Status::Shipped),
                        _ => ::std::result::Result::Err(::dynomite::AttributeError::InvalidFormat)
                    })
            }
        }
    "#;
    assert_eq!(tokens(&text), tokens(expected));
    assert!(is_items(&text));
}

#[test]
fn the_enum_impl_of_an_enum_without_cases_has_only_the_fallback() {
    let text = make_dynomite_attr(&name("Never"), &[]);
    let expected = r#"
        impl ::dynomite::Attribute for Never {
            fn into_attr(self) -> ::dynomite::dynamodb::AttributeValue {
                let arm = match self { };
                ::dynomite::dynamodb::AttributeValue {
                    s: ::std::option::Option::Some(arm),
                    ..::std::default::Default::default()
                }
            }
            fn from_attr(value: ::dynomite::dynamodb::AttributeValue) -> ::std::result::Result<Self, ::dynomite::AttributeError> {
                value.s.ok_or(::dynomite::AttributeError::InvalidType)
                    .and_then(|value| match &value[..] {
                        _ => ::std::result::Result::Err(::dynomite::AttributeError::InvalidFormat)
                    })
            }
        }
    "#;
    assert_eq!(tokens(&text), tokens(expected));
    assert!(is_items(&text));
}

#[test]
fn expand_attribute_takes_an_enum() {
    let variants = vec![Variant { ident: name("A") }];
    let ast = declaration("pub", "Kind", Data::Enum(variants.clone()));
    assert_eq!(expand_attribute(&ast), Ok(make_dynomite_attr(&name("Kind"), &variants)));
}

#[test]
fn expand_attribute_refuses_what_is_no_enum() {
    let ast = declaration("", "Person", Data::Struct(Fields::Named(person())));
    assert_eq!(expand_attribute(&ast), Err(ExpandError::AttributeNotEnum { name: name("Person") }));
    let ast = declaration("", "Bits", Data::Union);
    assert_eq!(expand_attribute(&ast), Err(ExpandError::AttributeNotEnum { name: name("Bits") }));
}

#[test]
fn the_writing_function_inserts_each_field_in_order() {
    let fields = order();
    let items = collect_item_fields(&fields);
    let text = get_to_attribute_map_function(&name("Order"), &items);
    assert_eq!(tokens(&text), tokens(ORDER_FROM_FN));
}

#[test]
fn the_writing_function_of_a_struct_without_fields_inserts_nothing() {
    let text = get_to_attribute_map_function(&name("Empty"), &[]);
    assert_eq!(
        tokens(&text),
        tokens("fn from(item: Empty) -> Self { let mut values = Self::new(); values }")
    );
}

#[test]
fn the_writing_impl_is_a_conversion_into_the_attribute_map() {
    let fields = order();
    let items = collect_item_fields(&fields);
    let text = get_to_attribute_map_trait(&name("Order"), &items);
    assert_eq!(tokens(&text), tokens(&order_from_trait()));
    assert!(is_items(&text));
}

#[test]
fn the_reading_function_initialises_each_field_in_order() {
    let fields = order();
    let items = collect_item_fields(&fields);
    let text = get_from_attributes_function(&items);
    assert_eq!(tokens(&text), tokens(ORDER_FROM_ATTRS_FN));
}

#[test]
fn the_reading_function_of_one_field_has_no_comma() {
    let fields = person();
    let items = collect_item_fields(&fields);
    let text = get_from_attributes_function(&items);
    let expected = r#"
        fn from_attrs(mut attrs: ::dynomite::Attributes) -> ::std::result::Result<Self, ::dynomite::AttributeError> {
            ::std::result::Result::Ok(Self {
                id: ::dynomite::Attribute::from_attr(
                    attrs.remove("id")
                        .ok_or(::dynomite::AttributeError::MissingField { name: "id".to_string() })?
                )?
            })
        }
    "#;
    assert_eq!(tokens(&text), tokens(expected));
}

#[test]
fn the_reading_function_of_a_struct_without_fields_is_an_empty_literal() {
    let text = get_from_attributes_function(&[]);
    let expected = r#"
        fn from_attrs(mut attrs: ::dynomite::Attributes) -> ::std::result::Result<Self, ::dynomite::AttributeError> {
            ::std::result::Result::Ok(Self { })
        }
    "#;
    assert_eq!(tokens(&text), tokens(expected));
}

#[test]
fn the_reading_impl_is_for_the_type() {
    let fields = order();
    let items = collect_item_fields(&fields);
    let text = get_from_attributes_trait(&name("Order"), &items);
    assert_eq!(tokens(&text), tokens(&order_from_attrs_trait()));
    assert!(is_items(&text));
}

#[test]
fn a_name_that_is_no_identifier_is_still_a_valid_literal() {
    let fields = vec![field(
        "odd",
        "String",
        vec![dynomite(vec![rename("a \"quoted\" \\ name\n")], "#[dynomite(rename = \"..\")]")],
    )];
    let items = collect_item_fields(&fields);
    let text = get_key_inserter(&items[0]);
    assert!(syn::parse_str::<syn::Stmt>(&text).is_ok());
    let literal = first_literal(text.parse().expect("tokens")).expect("a literal");
    assert_eq!(
        syn::parse_str::<syn::LitStr>(&literal).expect("a string literal").value(),
        "a \"quoted\" \\ name\n"
    );
}

#[test]
fn attributes_are_three_impls() {
    let fields = order();
    let text = make_dynomite_attributes(&name("Order"), &fields);
    let expected =
        format!("{} {} {}", order_from_attrs_trait(), order_from_trait(), ORDER_NESTED);
    assert_eq!(tokens(&text), tokens(&expected));
    assert!(is_items(&text));
    assert_eq!(syn::parse_str::<syn::File>(&text).expect("items").items.len(), 3);
}

#[test]
fn attributes_need_no_partition_key() {
    let fields = vec![field("a", "bool", vec![]), field("b", "bool", vec![])];
    let ast = declaration("", "Flags", Data::Struct(Fields::Named(fields.clone())));
    assert_eq!(expand_attributes(&ast), Ok(make_dynomite_attributes(&name("Flags"), &fields)));
}

#[test]
fn expand_attributes_refuses_other_shapes() {
    let ast = declaration("", "Pair", Data::Struct(Fields::Unnamed));
    assert_eq!(
        expand_attributes(&ast),
        Err(ExpandError::AttributesWithoutNamedFields { name: name("Pair") })
    );
    let ast = declaration("", "Marker", Data::Struct(Fields::Unit));
    assert_eq!(
        expand_attributes(&ast),
        Err(ExpandError::AttributesWithoutNamedFields { name: name("Marker") })
    );
    let ast = declaration("", "Kind", Data::Enum(Vec::new()));
    assert_eq!(
        expand_attributes(&ast),
        Err(ExpandError::AttributesNotStruct { name: name("Kind") })
    );
    let ast = declaration("", "Bits", Data::Union);
    assert_eq!(
        expand_attributes(&ast),
        Err(ExpandError::AttributesNotStruct { name: name("Bits") })
    );
}

#[test]
fn the_key_inserter_copies_the_field_and_uses_its_stored_name() {
    let fields = order();
    let items = collect_item_fields(&fields);
    assert_eq!(
        tokens(&get_key_inserter(&items[1])),
        tokens(
            "keys.insert(\"placedAt\".to_string(), ::dynomite::Attribute::into_attr(self.placed_at.clone()));"
        )
    );
}

#[test]
fn the_key_operation_inserts_partition_key_then_sort_key() {
    let fields = order();
    let items = collect_item_fields(&fields);
    let text = get_item_trait(&name("Order"), &items);
    assert_eq!(tokens(&text), tokens(ORDER_ITEM_TRAIT));
    assert!(is_items(&text));
}

#[test]
fn the_key_operation_without_sort_key_inserts_one_attribute() {
    let fields = person();
    let items = collect_item_fields(&fields);
    let text = get_item_trait(&name("Person"), &items);
    let expected = r#"
        impl ::dynomite::Item for Person {
            fn key(&self) -> ::std::collections::HashMap<String, ::dynomite::dynamodb::AttributeValue> {
                let mut keys = ::std::collections::HashMap::new();
                keys.insert("id".to_string(), ::dynomite::Attribute::into_attr(self.id.clone()));
                keys
            }
        }
    "#;
    assert_eq!(tokens(&text), tokens(expected));
}

#[test]
fn without_partition_key_nothing_is_emitted_for_the_key() {
    let fields = vec![field("a", "u8", vec![dynomite(vec![Attr::SortKey], "#[dynomite(sort_key)]")])];
    let items = collect_item_fields(&fields);
    assert_eq!(get_item_trait(&name("T"), &items), "");
    assert_eq!(get_key_struct(&name("pub"), &name("T"), &items), "");
    assert_eq!(key_declaration(&name("pub"), &name("T"), &items), None);
    assert_eq!(tokens(&get_item_impls(&name("pub"), &name("T"), &items)), "");
}

#[test]
fn the_key_type_of_a_partition_key_has_one_field() {
    let fields = person();
    let items = collect_item_fields(&fields);
    let key = key_declaration(&name("pub"), &name("Person"), &items).expect("a key type");
    assert_eq!(key.vis, "pub");
    assert_eq!(key.ident, "PersonKey");
    assert_eq!(key.data, Data::Struct(Fields::Named(vec![fields[0].clone()])));
}

#[test]
fn the_key_type_of_partition_and_sort_key_has_two_fields_in_that_order() {
    let fields = vec![
        field("at", "u64", vec![dynomite(vec![Attr::SortKey], "#[dynomite(sort_key)]")]),
        field("note", "String", vec![]),
        field("id", "String", vec![dynomite(vec![Attr::PartitionKey], "#[dynomite(partition_key)]")]),
    ];
    let items = collect_item_fields(&fields);
    let key = key_declaration(&name(""), &name("Event"), &items).expect("a key type");
    assert_eq!(key.ident, "EventKey");
    assert_eq!(
        key.data,
        Data::Struct(Fields::Named(vec![fields[2].clone(), fields[0].clone()]))
    );
}

#[test]
fn the_key_type_keeps_the_attributes_of_its_fields() {
    let fields = order();
    let items = collect_item_fields(&fields);
    let text = get_key_struct(&name("pub(crate)"), &name("Order"), &items);
    assert_eq!(tokens(&text), tokens(ORDER_KEY_STRUCT));
    assert!(is_items(&text));
}

#[test]
fn the_key_type_with_one_field_ends_in_a_comma() {
    let fields = person();
    let items = collect_item_fields(&fields);
    let text = get_key_struct(&name(""), &name("Person"), &items);
    let expected = r#"
        #[derive(::dynomite::Attributes, Debug, Clone, PartialEq)]
        struct PersonKey {
            #[dynomite(partition_key)]
            id: String,
        }
    "#;
    assert_eq!(tokens(&text), tokens(expected));
    assert!(is_items(&text));
}

#[test]
fn the_key_type_can_be_derived_for_in_turn() {
    let fields = order();
    let items = collect_item_fields(&fields);
    let key = key_declaration(&name("pub"), &name("Order"), &items).expect("a key type");
    let text = expand_attributes(&key).expect("the key's conversions");
    assert!(is_items(&text));
    let key_fields = match &key.data {
        Data::Struct(Fields::Named(fields)) => fields,
        _ => panic!("a struct with named fields"),
    };
    let key_items: Vec<ItemField> = collect_item_fields(key_fields);
    assert_eq!(key_items[1].deser_name(), "placedAt");
    assert!(tokens(&text).contains("\"placedAt\""));
}

#[test]
fn item_impls_are_the_key_operation_and_the_key_type() {
    let fields = order();
    let items = collect_item_fields(&fields);
    let text = get_item_impls(&name("pub(crate)"), &name("Order"), &items);
    assert_eq!(tokens(&text), tokens(&format!("{} {}", ORDER_ITEM_TRAIT, ORDER_KEY_STRUCT)));
    assert_eq!(get_dynomite_item_traits(&name("pub(crate)"), &name("Order"), &items), text);
}

#[test]
fn an_item_is_its_attributes_its_key_operation_and_its_key_type() {
    let fields = order();
    let text =
        make_dynomite_item(&name("pub(crate)"), &name("Order"), &fields).expect("an item");
    let expected = format!(
        "{} {} {} {}",
        order_from_attrs_trait(),
        order_from_trait(),
        ORDER_ITEM_TRAIT,
        ORDER_KEY_STRUCT
    );
    assert_eq!(tokens(&text), tokens(&expected));
    assert!(is_items(&text));
    assert_eq!(syn::parse_str::<syn::File>(&text).expect("items").items.len(), 4);
}

#[test]
fn an_item_without_partition_key_is_refused_with_the_count() {
    let fields = vec![field("a", "u8", vec![]), field("b", "u8", vec![])];
    let error = make_dynomite_item(&name(""), &name("Loose"), &fields).expect_err("an error");
    assert_eq!(error, ExpandError::PartitionKeyCount { name: name("Loose"), count: 0 });
    assert_eq!(
        error.message(),
        "All Item's must declare one and only one partition_key. The `Loose` Item declared 0"
    );
    assert_eq!(make_dynomite_item(&name(""), &name("Empty"), &[]).map_err(|e| e.message()), Err(
        name("All Item's must declare one and only one partition_key. The `Empty` Item declared 0")
    ));
}

#[test]
fn an_item_with_several_partition_keys_is_refused_with_the_count() {
    let mut fields = Vec::new();
    for i in 0..12 {
        fields.push(field(
            &format!("f{}", i),
            "u8",
            vec![dynomite(vec![Attr::PartitionKey], "#[dynomite(partition_key)]")],
        ));
    }
    let error = make_dynomite_item(&name(""), &name("Greedy"), &fields[..2]).expect_err("an error");
    assert_eq!(error, ExpandError::PartitionKeyCount { name: name("Greedy"), count: 2 });
    assert_eq!(
        error.message(),
        "All Item's must declare one and only one partition_key. The `Greedy` Item declared 2"
    );
    let error = make_dynomite_item(&name(""), &name("Greedy"), &fields).expect_err("an error");
    assert_eq!(
        error.message(),
        "All Item's must declare one and only one partition_key. The `Greedy` Item declared 12"
    );
}

#[test]
fn two_annotations_on_one_field_count_once() {
    let fields = vec![field(
        "id",
        "String",
        vec![
            dynomite(vec![Attr::PartitionKey], "#[dynomite(partition_key)]"),
            dynomite(vec![Attr::PartitionKey], "#[dynomite(partition_key)]"),
        ],
    )];
    assert!(make_dynomite_item(&name(""), &name("Twice"), &fields).is_ok());
}

#[test]
fn several_sort_keys_are_not_refused() {
    let fields = vec![
        field("id", "String", vec![dynomite(vec![Attr::PartitionKey], "#[dynomite(partition_key)]")]),
        field("a", "u8", vec![dynomite(vec![Attr::SortKey], "#[dynomite(sort_key)]")]),
        field("b", "u8", vec![dynomite(vec![Attr::SortKey], "#[dynomite(sort_key)]")]),
    ];
    let text = make_dynomite_item(&name(""), &name("Two"), &fields).expect("an item");
    assert!(is_items(&text));
    let items = collect_item_fields(&fields);
    let key = key_declaration(&name(""), &name("Two"), &items).expect("a key type");
    assert_eq!(
        key.data,
        Data::Struct(Fields::Named(vec![fields[0].clone(), fields[1].clone()]))
    );
}

#[test]
fn expand_item_takes_a_struct_with_named_fields() {
    let ast = declaration("pub", "Person", Data::Struct(Fields::Named(person())));
    assert_eq!(expand_item(&ast), make_dynomite_item(&name("pub"), &name("Person"), &person()));
    assert!(expand_item(&ast).is_ok());
}

#[test]
fn expand_item_refuses_other_shapes() {
    let ast = declaration("", "Pair", Data::Struct(Fields::Unnamed));
    let error = expand_item(&ast).expect_err("an error");
    assert_eq!(error, ExpandError::ItemWithoutNamedFields { name: name("Pair") });
    assert_eq!(error.message(), "Dynomite Items require named fields, which `Pair` does not have");
    let ast = declaration("", "Marker", Data::Struct(Fields::Unit));
    assert_eq!(
        expand_item(&ast),
        Err(ExpandError::ItemWithoutNamedFields { name: name("Marker") })
    );
    let ast = declaration("", "Kind", Data::Enum(Vec::new()));
    let error = expand_item(&ast).expect_err("an error");
    assert_eq!(error, ExpandError::ItemNotStruct { name: name("Kind") });
    assert_eq!(
        error.message(),
        "Dynomite Items can only be generated for structs, which `Kind` is not"
    );
    let ast = declaration("", "Bits", Data::Union);
    assert_eq!(expand_item(&ast), Err(ExpandError::ItemNotStruct { name: name("Bits") }));
}

#[test]
fn every_error_names_the_type() {
    let errors = vec![
        ExpandError::PartitionKeyCount { name: name("T"), count: 3 },
        ExpandError::ItemWithoutNamedFields { name: name("T") },
        ExpandError::ItemNotStruct { name: name("T") },
        ExpandError::AttributesWithoutNamedFields { name: name("T") },
        ExpandError::AttributesNotStruct { name: name("T") },
        ExpandError::AttributeNotEnum { name: name("T") },
    ];
    for error in &errors {
        assert_eq!(error.name(), "T");
        assert!(error.message().contains("`T`"));
    }
    assert_eq!(
        errors[3].message(),
        "Dynomite Attributes require named fields, which `T` does not have"
    );
    assert_eq!(
        errors[4].message(),
        "Dynomite Attributes can only be generated for structs, which `T` is not"
    );
    assert_eq!(
        errors[5].message(),
        "Dynomite Attributes can only be generated for enum types, which `T` is not"
    );
}

#[test]
fn a_derive_hands_back_the_items() {
    let ast = declaration("pub", "Person", Data::Struct(Fields::Named(person())));
    assert_eq!(derive_item(&ast), expand_item(&ast).expect("an item"));
    assert_eq!(derive_attributes(&ast), expand_attributes(&ast).expect("attributes"));
    let ast = declaration("", "Kind", Data::Enum(vec![Variant { ident: name("A") }]));
    assert_eq!(derive_attribute(&ast), expand_attribute(&ast).expect("an attribute"));
}

#[test]
fn a_derive_hands_back_a_compile_error_where_it_fails() {
    let ast = declaration("", "Loose", Data::Struct(Fields::Named(Vec::new())));
    let text = derive_item(&ast);
    let call = syn::parse_str::<syn::ItemMacro>(&text).expect("a macro invocation");
    assert!(call.mac.path.is_ident("compile_error"));
    let message = syn::parse2::<syn::LitStr>(call.mac.tokens).expect("a string literal");
    assert_eq!(
        message.value(),
        "All Item's must declare one and only one partition_key. The `Loose` Item declared 0"
    );

    let ast = declaration("", "Pair", Data::Struct(Fields::Unnamed));
    let text = derive_attributes(&ast);
    let call = syn::parse_str::<syn::ItemMacro>(&text).expect("a macro invocation");
    assert_eq!(
        syn::parse2::<syn::LitStr>(call.mac.tokens).expect("a string literal").value(),
        "Dynomite Attributes require named fields, which `Pair` does not have"
    );

    let text = derive_attribute(&ast);
    let call = syn::parse_str::<syn::ItemMacro>(&text).expect("a macro invocation");
    assert_eq!(
        syn::parse2::<syn::LitStr>(call.mac.tokens).expect("a string literal").value(),
        "Dynomite Attributes can only be generated for enum types, which `Pair` is not"
    );
}
