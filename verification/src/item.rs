//! What is derived for an item, a record with a partition key: the
//! conversions of a record of attributes, the operation that gives an item's
//! key, and the type of that key.
//!
//! What the emitted key operation computes is [`key`](crate::convert::key).

use vstd::prelude::*;
use vstd::string::*;
use crate::attributes::{
    from_attributes_trait_text, get_from_attributes_trait, get_to_attribute_map_trait,
    to_attribute_map_trait_text,
};
use crate::decl::{
    views, Data, DeriveInput, Field, Fields, SpecData, SpecDeriveInput, SpecField, SpecFields,
};
use crate::error::{ExpandError, SpecExpandError};
use crate::field::{
    collect_item_fields, count_partition_keys, find_partition_key, find_sort_key,
    first_partition_key, first_sort_key, item_fields, partition_key_count, ItemField,
    SpecItemField,
};
use crate::text::{concat_of, literal, string_literal};

verus! {

/// The statement that inserts a copy of the value of `field`, converted,
/// under the field's name.
pub open spec fn key_inserter_text(field: SpecItemField) -> Seq<char> {
    "keys.insert("@ + literal(field.deser_name())
        + ".to_string(), ::dynomite::Attribute::into_attr(self."@ + field.field.ident
        + ".clone()));"@
}

/// Emits the statement that inserts one key field.
pub fn get_key_inserter(field: &ItemField) -> (r: String)
    ensures
        r@ == key_inserter_text(field@),
{
    let field_deser_name = field.deser_name();
    let mut r = "keys.insert(".to_string();
    r.append(string_literal(field_deser_name.as_str()).as_str());
    r.append(".to_string(), ::dynomite::Attribute::into_attr(self.");
    r.append(field.field.ident.as_str());
    r.append(".clone()));");
    r
}

/// The statement that inserts the first sort key among `fields`; nothing
/// where there is none.
pub open spec fn sort_key_inserter_text(fields: Seq<SpecItemField>) -> Seq<char> {
    match first_sort_key(fields) {
        Some(s) => key_inserter_text(fields[s]),
        None => Seq::empty(),
    }
}

/// The impl of the key operation for the type `name`: the key map holds the
/// first partition key among `fields` and then the first sort key, if there
/// is one. Nothing where no field is a partition key.
pub open spec fn item_trait_text(name: Seq<char>, fields: Seq<SpecItemField>) -> Seq<char> {
    match first_partition_key(fields) {
        Some(p) => "impl ::dynomite::Item for "@ + name
            + " { fn key(&self) -> ::std::collections::HashMap<String, ::dynomite::dynamodb::AttributeValue> { let mut keys = ::std::collections::HashMap::new(); "@
            + key_inserter_text(fields[p]) + " "@ + sort_key_inserter_text(fields) + " keys } }"@,
        None => Seq::empty(),
    }
}

/// Emits the impl of the key operation.
pub fn get_item_trait(name: &String, fields: &[ItemField]) -> (r: String)
    ensures
        r@ == item_trait_text(name@, views(fields@)),
{
    match find_partition_key(fields) {
        Some(p) => {
            let partition_key_insert = get_key_inserter(&fields[p]);
            let sort_key_insert = match find_sort_key(fields) {
                Some(s) => get_key_inserter(&fields[s]),
                None => String::new(),
            };
            let mut r = "impl ::dynomite::Item for ".to_string();
            r.append(name.as_str());
            r.append(
                " { fn key(&self) -> ::std::collections::HashMap<String, ::dynomite::dynamodb::AttributeValue> { let mut keys = ::std::collections::HashMap::new(); ",
            );
            r.append(partition_key_insert.as_str());
            r.append(" ");
            r.append(sort_key_insert.as_str());
            r.append(" keys } }");
            r
        },
        None => String::new(),
    }
}

/// The fields of the key type: the first partition key among `fields`, then
/// the first sort key if there is one, each as it was declared.
pub open spec fn key_fields(fields: Seq<SpecItemField>) -> Seq<SpecField> {
    match first_partition_key(fields) {
        Some(p) => match first_sort_key(fields) {
            Some(s) => seq![fields[p].field, fields[s].field],
            None => seq![fields[p].field],
        },
        None => Seq::empty(),
    }
}

/// The declaration of the key type of the item `name`: a struct of the same
/// visibility, named `name` with `Key` behind it, with the key fields. None
/// where no field is a partition key.
pub open spec fn key_declared(
    vis: Seq<char>,
    name: Seq<char>,
    fields: Seq<SpecItemField>,
) -> Option<SpecDeriveInput> {
    if first_partition_key(fields) is Some {
        Some(
            SpecDeriveInput {
                vis,
                ident: name + "Key"@,
                data: SpecData::Struct(SpecFields::Named(key_fields(fields))),
            },
        )
    } else {
        None
    }
}

/// Declares the key type of an item.
pub fn key_declaration(vis: &String, name: &String, fields: &[ItemField]) -> (r: Option<
    DeriveInput,
>)
    ensures
        match r {
            Some(key) => key_declared(vis@, name@, views(fields@)) == Some(key@),
            None => key_declared(vis@, name@, views(fields@)) == None::<SpecDeriveInput>,
        },
{
    match find_partition_key(fields) {
        Some(p) => {
            let mut named: Vec<Field> = Vec::new();
            named.push(fields[p].field.clone());
            match find_sort_key(fields) {
                Some(s) => {
                    named.push(fields[s].field.clone());
                },
                None => {},
            }
            assert(views(named@) =~= key_fields(views(fields@)));
            let mut ident = name.clone();
            ident.append("Key");
            Some(DeriveInput { vis: vis.clone(), ident, data: Data::Struct(Fields::Named(named)) })
        },
        None => None,
    }
}

/// A field as it is written in a declaration: its attributes, its
/// visibility, its name and its type.
pub open spec fn field_text(field: SpecField) -> Seq<char> {
    concat_of(field.attrs.len(), |i: int| field.attrs[i].tokens + " "@) + field.vis + " "@
        + field.ident + ": "@ + field.ty
}

/// Writes a field as in a declaration.
fn field_declaration(field: &Field) -> (r: String)
    ensures
        r@ == field_text(field@),
{
    let ghost part = |i: int| field@.attrs[i].tokens + " "@;
    let mut r = String::new();
    let mut i: usize = 0;
    while i < field.attrs.len()
        invariant
            i <= field.attrs.len(),
            part == |i: int| field@.attrs[i].tokens + " "@,
            r@ == concat_of(i as nat, part),
        decreases field.attrs.len() - i,
    {
        let mut attr = String::new();
        attr.append(field.attrs[i].tokens.as_str());
        attr.append(" ");
        assert(attr@ =~= part(i as int));
        r.append(attr.as_str());
        i = i + 1;
    }
    r.append(field.vis.as_str());
    r.append(" ");
    r.append(field.ident.as_str());
    r.append(": ");
    r.append(field.ty.as_str());
    r
}

/// The second key field as it is written; nothing where there is only one.
pub open spec fn second_field_text(fields: Seq<SpecField>) -> Seq<char> {
    if fields.len() > 1 {
        field_text(fields[1])
    } else {
        Seq::empty()
    }
}

/// The key type as it is written: a struct that derives the conversions of a
/// record of attributes, with its first field, a comma, and its second field
/// if it has one.
pub open spec fn key_struct_text(vis: Seq<char>, name: Seq<char>, fields: Seq<SpecItemField>) -> Seq<
    char,
> {
    if first_partition_key(fields) is Some {
        "#[derive(::dynomite::Attributes, Debug, Clone, PartialEq)] "@ + vis + " struct "@ + name
            + "Key { "@ + field_text(key_fields(fields)[0]) + ", "@ + second_field_text(
            key_fields(fields),
        ) + " }"@
    } else {
        Seq::empty()
    }
}

/// Emits the key type of an item.
pub fn get_key_struct(vis: &String, name: &String, fields: &[ItemField]) -> (r: String)
    ensures
        r@ == key_struct_text(vis@, name@, views(fields@)),
{
    match find_partition_key(fields) {
        Some(p) => {
            let partition_key_field = field_declaration(fields[p].field);
            let sort_key_field = match find_sort_key(fields) {
                Some(s) => field_declaration(fields[s].field),
                None => String::new(),
            };
            let mut r = "#[derive(::dynomite::Attributes, Debug, Clone, PartialEq)] ".to_string();
            r.append(vis.as_str());
            r.append(" struct ");
            r.append(name.as_str());
            r.append("Key { ");
            r.append(partition_key_field.as_str());
            r.append(", ");
            r.append(sort_key_field.as_str());
            r.append(" }");
            r
        },
        None => String::new(),
    }
}

/// The impl of the key operation and the key type.
pub open spec fn item_impls_text(vis: Seq<char>, name: Seq<char>, fields: Seq<SpecItemField>) -> Seq<
    char,
> {
    item_trait_text(name, fields) + " "@ + key_struct_text(vis, name, fields)
}

/// Emits the impl of the key operation and the key type.
pub fn get_item_impls(vis: &String, name: &String, fields: &[ItemField]) -> (r: String)
    ensures
        r@ == item_impls_text(vis@, name@, views(fields@)),
{
    let mut r = get_item_trait(name, fields);
    r.append(" ");
    r.append(get_key_struct(vis, name, fields).as_str());
    r
}

/// Emits what an item has beyond a record of attributes.
pub fn get_dynomite_item_traits(vis: &String, name: &String, fields: &[ItemField]) -> (r: String)
    ensures
        r@ == item_impls_text(vis@, name@, views(fields@)),
{
    get_item_impls(vis, name, fields)
}

/// All that is derived for an item with the fields `fields`: where exactly
/// one field is a partition key, reading it off a map, writing it as a map,
/// the key operation and the key type; else the error that carries the
/// item's name and the number of partition keys.
pub open spec fn item_text(vis: Seq<char>, name: Seq<char>, fields: Seq<SpecField>) -> Result<
    Seq<char>,
    SpecExpandError,
> {
    if partition_key_count(item_fields(fields)) != 1 {
        Err(
            SpecExpandError::PartitionKeyCount {
                name,
                count: partition_key_count(item_fields(fields)),
            },
        )
    } else {
        Ok(
            from_attributes_trait_text(name, item_fields(fields)) + " "@
                + to_attribute_map_trait_text(name, item_fields(fields)) + " "@ + item_impls_text(
                vis,
                name,
                item_fields(fields),
            ),
        )
    }
}

/// Emits all that is derived for an item.
pub fn make_dynomite_item(vis: &String, name: &String, fields: &[Field]) -> (r: Result<
    String,
    ExpandError,
>)
    ensures
        match r {
            Ok(text) => item_text(vis@, name@, views(fields@)) == Ok::<Seq<char>, SpecExpandError>(
                text@,
            ),
            Err(e) => item_text(vis@, name@, views(fields@)) == Err::<Seq<char>, SpecExpandError>(
                e@,
            ),
        },
{
    let item_fields = collect_item_fields(fields);
    let partition_key_count = count_partition_keys(item_fields.as_slice());
    if partition_key_count != 1 {
        return Err(
            ExpandError::PartitionKeyCount { name: name.clone(), count: partition_key_count },
        );
    }
    let dynamodb_traits = get_dynomite_item_traits(vis, name, item_fields.as_slice());
    let mut r = get_from_attributes_trait(name, item_fields.as_slice());
    r.append(" ");
    r.append(get_to_attribute_map_trait(name, item_fields.as_slice()).as_str());
    r.append(" ");
    r.append(dynamodb_traits.as_str());
    Ok(r)
}

/// What deriving an item comes to: for a struct with named fields what
/// `item_text` says, and for any other declaration the error that says what
/// it is not.
pub open spec fn expanded_item(ast: SpecDeriveInput) -> Result<Seq<char>, SpecExpandError> {
    match ast.data {
        SpecData::Struct(SpecFields::Named(fields)) => item_text(ast.vis, ast.ident, fields),
        SpecData::Struct(_) => Err(SpecExpandError::ItemWithoutNamedFields { name: ast.ident }),
        _ => Err(SpecExpandError::ItemNotStruct { name: ast.ident }),
    }
}

/// Derives all that belongs to an item.
pub fn expand_item(ast: &DeriveInput) -> (r: Result<String, ExpandError>)
    ensures
        match r {
            Ok(text) => expanded_item(ast@) == Ok::<Seq<char>, SpecExpandError>(text@),
            Err(e) => expanded_item(ast@) == Err::<Seq<char>, SpecExpandError>(e@),
        },
{
    match &ast.data {
        Data::Struct(fields) => match fields {
            Fields::Named(named) => make_dynomite_item(&ast.vis, &ast.ident, named.as_slice()),
            _ => Err(ExpandError::ItemWithoutNamedFields { name: ast.ident.clone() }),
        },
        _ => Err(ExpandError::ItemNotStruct { name: ast.ident.clone() }),
    }
}

} // verus!
