//! The conversion derived for an enum without data: each case is a string
//! attribute that holds the case's name.
//!
//! What the emitted code computes is
//! [`enum_into_attr`](crate::convert::enum_into_attr) and
//! [`enum_from_attr`](crate::convert::enum_from_attr).

use vstd::prelude::*;
use vstd::string::*;
use crate::decl::{views, Data, DeriveInput, SpecData, SpecDeriveInput, Variant};
use crate::error::{ExpandError, SpecExpandError};
use crate::text::concat_of;

verus! {

/// The arm that writes the case `variant` of the enum `name` as its name.
pub open spec fn into_arm_text(name: Seq<char>, variant: Seq<char>) -> Seq<char> {
    Seq::empty() + name + "::"@ + variant + " => stringify!("@ + variant + ").to_string(), "@
}

/// The arm that reads the name of the case `variant` as that case of the
/// enum `name`.
pub open spec fn from_arm_text(name: Seq<char>, variant: Seq<char>) -> Seq<char> {
    "stringify!("@ + variant + ") => ::std::result::Result::Ok("@ + name + "::"@ + variant + "), "@
}

/// The impl of the conversion for the enum `name` with the cases `variants`.
pub open spec fn attr_impl_text(name: Seq<char>, variants: Seq<Seq<char>>) -> Seq<char> {
    "impl ::dynomite::Attribute for "@ + name
        + " { fn into_attr(self) -> ::dynomite::dynamodb::AttributeValue { let arm = match self { "@
        + concat_of(variants.len(), |i: int| into_arm_text(name, variants[i]))
        + "}; ::dynomite::dynamodb::AttributeValue { s: ::std::option::Option::Some(arm), ..::std::default::Default::default() } } fn from_attr(value: ::dynomite::dynamodb::AttributeValue) -> ::std::result::Result<Self, ::dynomite::AttributeError> { value.s.ok_or(::dynomite::AttributeError::InvalidType).and_then(|value| match &value[..] { "@
        + concat_of(variants.len(), |i: int| from_arm_text(name, variants[i]))
        + "_ => ::std::result::Result::Err(::dynomite::AttributeError::InvalidFormat) }) } }"@
}

/// Emits the impl of the conversion for an enum: a case is written as a
/// string with its name, and read back from exactly that string.
pub fn make_dynomite_attr(name: &String, variants: &[Variant]) -> (r: String)
    ensures
        r@ == attr_impl_text(name@, views(variants@)),
{
    let ghost all = views(variants@);
    let ghost into_arm = |i: int| into_arm_text(name@, all[i]);
    let ghost from_arm = |i: int| from_arm_text(name@, all[i]);
    let mut into_arms = String::new();
    let mut from_arms = String::new();
    let mut i: usize = 0;
    while i < variants.len()
        invariant
            i <= variants.len(),
            all == views(variants@),
            into_arm == |i: int| into_arm_text(name@, all[i]),
            from_arm == |i: int| from_arm_text(name@, all[i]),
            into_arms@ == concat_of(i as nat, into_arm),
            from_arms@ == concat_of(i as nat, from_arm),
        decreases variants.len() - i,
    {
        let variant = variants[i].ident.as_str();
        let mut arm = String::new();
        arm.append(name.as_str());
        arm.append("::");
        arm.append(variant);
        arm.append(" => stringify!(");
        arm.append(variant);
        arm.append(").to_string(), ");
        into_arms.append(arm.as_str());
        let mut arm = "stringify!(".to_string();
        arm.append(variant);
        arm.append(") => ::std::result::Result::Ok(");
        arm.append(name.as_str());
        arm.append("::");
        arm.append(variant);
        arm.append("), ");
        from_arms.append(arm.as_str());
        i = i + 1;
    }
    let mut r = "impl ::dynomite::Attribute for ".to_string();
    r.append(name.as_str());
    r.append(
        " { fn into_attr(self) -> ::dynomite::dynamodb::AttributeValue { let arm = match self { ",
    );
    r.append(into_arms.as_str());
    r.append(
        "}; ::dynomite::dynamodb::AttributeValue { s: ::std::option::Option::Some(arm), ..::std::default::Default::default() } } fn from_attr(value: ::dynomite::dynamodb::AttributeValue) -> ::std::result::Result<Self, ::dynomite::AttributeError> { value.s.ok_or(::dynomite::AttributeError::InvalidType).and_then(|value| match &value[..] { ",
    );
    r.append(from_arms.as_str());
    r.append("_ => ::std::result::Result::Err(::dynomite::AttributeError::InvalidFormat) }) } }");
    r
}

/// What deriving the conversion comes to: the impl for an enum, and for any
/// other declaration the error that says so.
pub open spec fn expanded_attribute(ast: SpecDeriveInput) -> Result<Seq<char>, SpecExpandError> {
    match ast.data {
        SpecData::Enum(variants) => Ok(attr_impl_text(ast.ident, variants)),
        _ => Err(SpecExpandError::AttributeNotEnum { name: ast.ident }),
    }
}

/// Derives the conversion for an enum.
pub fn expand_attribute(ast: &DeriveInput) -> (r: Result<String, ExpandError>)
    ensures
        match r {
            Ok(text) => expanded_attribute(ast@) == Ok::<Seq<char>, SpecExpandError>(text@),
            Err(e) => expanded_attribute(ast@) == Err::<Seq<char>, SpecExpandError>(e@),
        },
{
    match &ast.data {
        Data::Enum(variants) => Ok(make_dynomite_attr(&ast.ident, variants.as_slice())),
        _ => Err(ExpandError::AttributeNotEnum { name: ast.ident.clone() }),
    }
}

} // verus!
