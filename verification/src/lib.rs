//! Attribute mapping for records: from a struct's or enum's declaration to the
//! conversions between its values and a map of named attribute values.
//!
//! A declaration comes in as a [`DeriveInput`](crate::decl::DeriveInput), and
//! what is derived for it goes out as the text of Rust items. The module
//! [`convert`] holds what those items compute, and [`laws`] what holds of it.

use vstd::prelude::*;
use vstd::string::*;
use crate::attribute::{expand_attribute, expanded_attribute};
use crate::attributes::{expand_attributes, expanded_attributes};
use crate::decl::DeriveInput;
use crate::error::{ExpandError, SpecExpandError};
use crate::item::{expand_item, expanded_item};
use crate::text::{literal, string_literal};

pub mod attribute;
pub mod attributes;
pub mod convert;
pub mod decl;
pub mod error;
pub mod field;
pub mod item;
pub mod laws;
pub mod text;
pub mod value;

verus! {

/// What a derive hands back: the items where there are any, else an
/// invocation of `compile_error!` with the error in words.
pub open spec fn derived(expanded: Result<Seq<char>, SpecExpandError>) -> Seq<char> {
    match expanded {
        Ok(text) => text,
        Err(e) => "compile_error! { "@ + literal(e.message()) + " }"@,
    }
}

/// Turns the result of an expansion into what the derive hands back.
fn finish(expanded: Result<String, ExpandError>) -> (r: String)
    ensures
        r@ == derived(
            match expanded {
                Ok(text) => Ok(text@),
                Err(e) => Err(e@),
            },
        ),
{
    match expanded {
        Ok(text) => text,
        Err(e) => {
            let mut r = "compile_error! { ".to_string();
            r.append(string_literal(e.message().as_str()).as_str());
            r.append(" }");
            r
        },
    }
}

/// Derives `Item` for a struct with named fields, one of which is annotated
/// as the partition key: the conversions of a record of attributes, the key
/// operation and the key type.
pub fn derive_item(input: &DeriveInput) -> (r: String)
    ensures
        r@ == derived(expanded_item(input@)),
{
    finish(expand_item(input))
}

/// Derives `Attributes` for a struct with named fields: as `Item`, but
/// without keys.
pub fn derive_attributes(input: &DeriveInput) -> (r: String)
    ensures
        r@ == derived(expanded_attributes(input@)),
{
    finish(expand_attributes(input))
}

/// Derives `Attribute` for an enum without data.
pub fn derive_attribute(input: &DeriveInput) -> (r: String)
    ensures
        r@ == derived(expanded_attribute(input@)),
{
    finish(expand_attribute(input))
}

} // verus!
