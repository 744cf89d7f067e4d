//! The conversions derived for a struct with named fields: into an attribute
//! map, back from one, and, as a whole, into and from one map value.
//!
//! What the emitted code computes is
//! [`into_attributes`](crate::convert::into_attributes),
//! [`from_attrs`](crate::convert::from_attrs),
//! [`record_into_attr`](crate::convert::record_into_attr) and
//! [`record_from_attr`](crate::convert::record_from_attr).

use vstd::prelude::*;
use vstd::string::*;
use crate::decl::{views, Data, DeriveInput, Field, Fields, SpecData, SpecDeriveInput, SpecField, SpecFields};
use crate::error::{ExpandError, SpecExpandError};
use crate::field::{collect_item_fields, item_fields, ItemField, SpecItemField};
use crate::text::{concat_of, joined, literal, string_literal};

verus! {

/// The statement that inserts the value of `field`, converted, under the
/// field's name.
pub open spec fn insert_text(field: SpecItemField) -> Seq<char> {
    "values.insert("@ + literal(field.deser_name())
        + ".to_string(), ::dynomite::Attribute::into_attr(item."@ + field.field.ident + ")); "@
}

/// The function that writes a value of the type `name` as an attribute map:
/// one insertion for each of `fields`, in declaration order.
pub open spec fn to_attribute_map_function_text(
    name: Seq<char>,
    fields: Seq<SpecItemField>,
) -> Seq<char> {
    "fn from(item: "@ + name + ") -> Self { let mut values = Self::new(); "@ + concat_of(
        fields.len(),
        |i: int| insert_text(fields[i]),
    ) + "values }"@
}

/// The impl that holds that function.
pub open spec fn to_attribute_map_trait_text(name: Seq<char>, fields: Seq<SpecItemField>) -> Seq<
    char,
> {
    "impl ::std::convert::From<"@ + name + "> for ::dynomite::Attributes { "@
        + to_attribute_map_function_text(name, fields) + " }"@
}

/// Emits the function that writes a record as an attribute map.
pub fn get_to_attribute_map_function(name: &String, fields: &[ItemField]) -> (r: String)
    ensures
        r@ == to_attribute_map_function_text(name@, views(fields@)),
{
    let ghost all = views(fields@);
    let ghost part = |i: int| insert_text(all[i]);
    let mut inserts = String::new();
    let mut i: usize = 0;
    while i < fields.len()
        invariant
            i <= fields.len(),
            all == views(fields@),
            part == |i: int| insert_text(all[i]),
            inserts@ == concat_of(i as nat, part),
        decreases fields.len() - i,
    {
        let field_deser_name = fields[i].deser_name();
        let mut insert = "values.insert(".to_string();
        insert.append(string_literal(field_deser_name.as_str()).as_str());
        insert.append(".to_string(), ::dynomite::Attribute::into_attr(item.");
        insert.append(fields[i].field.ident.as_str());
        insert.append(")); ");
        inserts.append(insert.as_str());
        i = i + 1;
    }
    let mut r = "fn from(item: ".to_string();
    r.append(name.as_str());
    r.append(") -> Self { let mut values = Self::new(); ");
    r.append(inserts.as_str());
    r.append("values }");
    r
}

/// Emits the impl that writes a record as an attribute map.
pub fn get_to_attribute_map_trait(name: &String, fields: &[ItemField]) -> (r: String)
    ensures
        r@ == to_attribute_map_trait_text(name@, views(fields@)),
{
    let to_attribute_map = get_to_attribute_map_function(name, fields);
    let mut r = "impl ::std::convert::From<".to_string();
    r.append(name.as_str());
    r.append("> for ::dynomite::Attributes { ");
    r.append(to_attribute_map.as_str());
    r.append(" }");
    r
}

/// The initialiser of `field` in the record that is read off a map. The
/// attribute under the field's name is taken out of the map and converted.
/// Where there is none, a field annotated as default takes its type's
/// default value, and any other field fails with a missing-field error that
/// carries the name.
pub open spec fn conversion_text(field: SpecItemField) -> Seq<char> {
    if field.is_default_when_absent() {
        Seq::empty() + field.field.ident + ": match attrs.remove("@ + literal(field.deser_name())
            + ") { Some(field) => ::dynomite::Attribute::from_attr(field)?, _ => ::std::default::Default::default() }"@
    } else {
        Seq::empty() + field.field.ident + ": ::dynomite::Attribute::from_attr(attrs.remove("@
            + literal(field.deser_name())
            + ").ok_or(::dynomite::AttributeError::MissingField { name: "@ + literal(
            field.deser_name(),
        ) + ".to_string() })?)?"@
    }
}

/// The function that reads a record off an attribute map: the initialisers of
/// `fields`, in declaration order.
pub open spec fn from_attributes_function_text(fields: Seq<SpecItemField>) -> Seq<char> {
    "fn from_attrs(mut attrs: ::dynomite::Attributes) -> ::std::result::Result<Self, ::dynomite::AttributeError> { ::std::result::Result::Ok(Self { "@
        + joined(fields.len(), |i: int| conversion_text(fields[i]), ", "@) + " }) }"@
}

/// The impl that holds that function.
pub open spec fn from_attributes_trait_text(name: Seq<char>, fields: Seq<SpecItemField>) -> Seq<
    char,
> {
    "impl ::dynomite::FromAttributes for "@ + name + " { "@ + from_attributes_function_text(fields)
        + " }"@
}

/// Emits the initialiser of one field.
fn conversion(field: &ItemField) -> (r: String)
    ensures
        r@ == conversion_text(field@),
{
    let field_deser_name = string_literal(field.deser_name().as_str());
    let mut r = String::new();
    r.append(field.field.ident.as_str());
    if field.is_default_when_absent() {
        r.append(": match attrs.remove(");
        r.append(field_deser_name.as_str());
        r.append(
            ") { Some(field) => ::dynomite::Attribute::from_attr(field)?, _ => ::std::default::Default::default() }",
        );
    } else {
        r.append(": ::dynomite::Attribute::from_attr(attrs.remove(");
        r.append(field_deser_name.as_str());
        r.append(").ok_or(::dynomite::AttributeError::MissingField { name: ");
        r.append(field_deser_name.as_str());
        r.append(".to_string() })?)?");
    }
    r
}

/// Emits the function that reads a record off an attribute map.
pub fn get_from_attributes_function(fields: &[ItemField]) -> (r: String)
    ensures
        r@ == from_attributes_function_text(views(fields@)),
{
    let ghost all = views(fields@);
    let ghost part = |i: int| conversion_text(all[i]);
    let mut conversions = String::new();
    let mut i: usize = 0;
    while i < fields.len()
        invariant
            i <= fields.len(),
            all == views(fields@),
            part == |i: int| conversion_text(all[i]),
            conversions@ == joined(i as nat, part, ", "@),
        decreases fields.len() - i,
    {
        let one = conversion(&fields[i]);
        if i == 0 {
            assert(conversions@ + one@ =~= one@);
        } else {
            conversions.append(", ");
        }
        conversions.append(one.as_str());
        i = i + 1;
    }
    let mut r =
        "fn from_attrs(mut attrs: ::dynomite::Attributes) -> ::std::result::Result<Self, ::dynomite::AttributeError> { ::std::result::Result::Ok(Self { ".to_string();
    r.append(conversions.as_str());
    r.append(" }) }");
    r
}

/// Emits the impl that reads a record off an attribute map.
pub fn get_from_attributes_trait(name: &String, fields: &[ItemField]) -> (r: String)
    ensures
        r@ == from_attributes_trait_text(name@, views(fields@)),
{
    let from_attribute_map = get_from_attributes_function(fields);
    let mut r = "impl ::dynomite::FromAttributes for ".to_string();
    r.append(name.as_str());
    r.append(" { ");
    r.append(from_attribute_map.as_str());
    r.append(" }");
    r
}

/// The impl that writes a value of the type `name` as one map value, and
/// reads it off one; any other kind of value is a type error.
pub open spec fn nested_attribute_text(name: Seq<char>) -> Seq<char> {
    "impl ::dynomite::Attribute for "@ + name
        + " { fn into_attr(self: Self) -> ::dynomite::AttributeValue { ::dynomite::AttributeValue { m: Some(self.into()), ..::dynomite::AttributeValue::default() } } fn from_attr(value: ::dynomite::AttributeValue) -> Result<Self, ::dynomite::AttributeError> { use ::dynomite::FromAttributes; value.m.ok_or(::dynomite::AttributeError::InvalidType).and_then(Self::from_attrs) } }"@
}

/// All that is derived for a record of attributes: reading it off a map,
/// writing it as a map, and the two as one map value.
pub open spec fn attributes_text(name: Seq<char>, fields: Seq<SpecField>) -> Seq<char> {
    from_attributes_trait_text(name, item_fields(fields)) + " "@ + to_attribute_map_trait_text(
        name,
        item_fields(fields),
    ) + " "@ + nested_attribute_text(name)
}

/// Emits all that is derived for a record of attributes.
pub fn make_dynomite_attributes(name: &String, fields: &[Field]) -> (r: String)
    ensures
        r@ == attributes_text(name@, views(fields@)),
{
    let item_fields = collect_item_fields(fields);
    let mut r = get_from_attributes_trait(name, item_fields.as_slice());
    r.append(" ");
    r.append(get_to_attribute_map_trait(name, item_fields.as_slice()).as_str());
    r.append(" ");
    let mut impl_attribute = "impl ::dynomite::Attribute for ".to_string();
    impl_attribute.append(name.as_str());
    impl_attribute.append(
        " { fn into_attr(self: Self) -> ::dynomite::AttributeValue { ::dynomite::AttributeValue { m: Some(self.into()), ..::dynomite::AttributeValue::default() } } fn from_attr(value: ::dynomite::AttributeValue) -> Result<Self, ::dynomite::AttributeError> { use ::dynomite::FromAttributes; value.m.ok_or(::dynomite::AttributeError::InvalidType).and_then(Self::from_attrs) } }",
    );
    r.append(impl_attribute.as_str());
    r
}

/// What deriving a record of attributes comes to: the impls for a struct with
/// named fields, and for any other declaration the error that says what it
/// is not.
pub open spec fn expanded_attributes(ast: SpecDeriveInput) -> Result<Seq<char>, SpecExpandError> {
    match ast.data {
        SpecData::Struct(SpecFields::Named(fields)) => Ok(attributes_text(ast.ident, fields)),
        SpecData::Struct(_) => Err(
            SpecExpandError::AttributesWithoutNamedFields { name: ast.ident },
        ),
        _ => Err(SpecExpandError::AttributesNotStruct { name: ast.ident }),
    }
}

/// Derives the conversions of a record of attributes.
pub fn expand_attributes(ast: &DeriveInput) -> (r: Result<String, ExpandError>)
    ensures
        match r {
            Ok(text) => expanded_attributes(ast@) == Ok::<Seq<char>, SpecExpandError>(text@),
            Err(e) => expanded_attributes(ast@) == Err::<Seq<char>, SpecExpandError>(e@),
        },
{
    match &ast.data {
        Data::Struct(fields) => match fields {
            Fields::Named(named) => Ok(make_dynomite_attributes(&ast.ident, named.as_slice())),
            _ => Err(ExpandError::AttributesWithoutNamedFields { name: ast.ident.clone() }),
        },
        _ => Err(ExpandError::AttributesNotStruct { name: ast.ident.clone() }),
    }
}

} // verus!
