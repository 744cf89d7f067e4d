//! The declaration a derive is applied to, held as plain text and tags.
//!
//! Identifiers, types, visibilities and whole attributes are kept as the text
//! of their tokens; the annotations inside `#[dynomite(..)]` are kept as tags.

use vstd::prelude::*;

verus! {

/// The views of the items of a sequence, in the same order.
pub open spec fn views<T: View>(s: Seq<T>) -> Seq<T::V> {
    Seq::new(s.len(), |i: int| s[i]@)
}

/// One annotation written inside `#[dynomite(..)]` on a field.
#[derive(Debug, PartialEq, Eq)]
pub enum Attr {
    /// `partition_key`: the field is the item's partition key.
    PartitionKey,
    /// `sort_key`: the field is the item's sort key.
    SortKey,
    /// `default`: a missing attribute decodes to the field type's default.
    Default,
    /// `rename = "name"`: the attribute is called `name`, not as the field.
    Rename(String),
}

/// What an [`Attr`] is in contracts.
pub enum SpecAttr {
    PartitionKey,
    SortKey,
    Default,
    Rename(Seq<char>),
}

impl View for Attr {
    type V = SpecAttr;

    open spec fn view(&self) -> SpecAttr {
        match self {
            Attr::PartitionKey => SpecAttr::PartitionKey,
            Attr::SortKey => SpecAttr::SortKey,
            Attr::Default => SpecAttr::Default,
            Attr::Rename(name) => SpecAttr::Rename(name@),
        }
    }
}

impl Clone for Attr {
    fn clone(&self) -> (r: Self)
        ensures
            r@ == self@,
    {
        match self {
            Attr::PartitionKey => Attr::PartitionKey,
            Attr::SortKey => Attr::SortKey,
            Attr::Default => Attr::Default,
            Attr::Rename(name) => Attr::Rename(name.clone()),
        }
    }
}

/// One attribute of a field, of any path.
#[derive(Debug, PartialEq, Eq)]
pub struct RawAttribute {
    /// The attribute's path as written.
    pub path: String,
    /// The annotations between its parentheses; empty unless the path is
    /// `dynomite`.
    pub args: Vec<Attr>,
    /// The whole attribute as written, from `#` to `]`.
    pub tokens: String,
}

/// What a [`RawAttribute`] is in contracts.
pub struct SpecRawAttribute {
    pub path: Seq<char>,
    pub args: Seq<SpecAttr>,
    pub tokens: Seq<char>,
}

impl View for RawAttribute {
    type V = SpecRawAttribute;

    open spec fn view(&self) -> SpecRawAttribute {
        SpecRawAttribute { path: self.path@, args: views(self.args@), tokens: self.tokens@ }
    }
}

impl Clone for RawAttribute {
    fn clone(&self) -> (r: Self)
        ensures
            r@ == self@,
    {
        let args = self.args.clone();
        assert(views(args@) =~= views(self.args@));
        RawAttribute { path: self.path.clone(), args, tokens: self.tokens.clone() }
    }
}

/// One named field of a struct.
#[derive(Debug, PartialEq, Eq)]
pub struct Field {
    /// Every attribute on the field, in source order.
    pub attrs: Vec<RawAttribute>,
    /// The visibility as written; empty for a private field.
    pub vis: String,
    /// The field's name.
    pub ident: String,
    /// The field's type as written.
    pub ty: String,
}

/// What a [`Field`] is in contracts.
pub struct SpecField {
    pub attrs: Seq<SpecRawAttribute>,
    pub vis: Seq<char>,
    pub ident: Seq<char>,
    pub ty: Seq<char>,
}

impl View for Field {
    type V = SpecField;

    open spec fn view(&self) -> SpecField {
        SpecField { attrs: views(self.attrs@), vis: self.vis@, ident: self.ident@, ty: self.ty@ }
    }
}

impl Clone for Field {
    fn clone(&self) -> (r: Self)
        ensures
            r@ == self@,
    {
        let attrs = self.attrs.clone();
        assert(views(attrs@) =~= views(self.attrs@));
        Field {
            attrs,
            vis: self.vis.clone(),
            ident: self.ident.clone(),
            ty: self.ty.clone(),
        }
    }
}

/// One case of an enum.
#[derive(Debug, PartialEq, Eq)]
pub struct Variant {
    /// The case's name.
    pub ident: String,
}

impl View for Variant {
    type V = Seq<char>;

    open spec fn view(&self) -> Seq<char> {
        self.ident@
    }
}

impl Clone for Variant {
    fn clone(&self) -> (r: Self)
        ensures
            r@ == self@,
    {
        Variant { ident: self.ident.clone() }
    }
}

/// The fields of a struct, by the shape in which they are written.
#[derive(Debug, PartialEq, Eq)]
pub enum Fields {
    /// `{ a: A, b: B }`
    Named(Vec<Field>),
    /// `(A, B)`
    Unnamed,
    /// no fields at all
    Unit,
}

/// What [`Fields`] are in contracts.
pub enum SpecFields {
    Named(Seq<SpecField>),
    Unnamed,
    Unit,
}

impl View for Fields {
    type V = SpecFields;

    open spec fn view(&self) -> SpecFields {
        match self {
            Fields::Named(fields) => SpecFields::Named(views(fields@)),
            Fields::Unnamed => SpecFields::Unnamed,
            Fields::Unit => SpecFields::Unit,
        }
    }
}

/// The body of a declaration.
#[derive(Debug, PartialEq, Eq)]
pub enum Data {
    Struct(Fields),
    Enum(Vec<Variant>),
    Union,
}

/// What [`Data`] is in contracts.
pub enum SpecData {
    Struct(SpecFields),
    Enum(Seq<Seq<char>>),
    Union,
}

impl View for Data {
    type V = SpecData;

    open spec fn view(&self) -> SpecData {
        match self {
            Data::Struct(fields) => SpecData::Struct(fields@),
            Data::Enum(variants) => SpecData::Enum(views(variants@)),
            Data::Union => SpecData::Union,
        }
    }
}

/// A type declaration with a derive on it.
#[derive(Debug, PartialEq, Eq)]
pub struct DeriveInput {
    /// The visibility as written; empty for a private type.
    pub vis: String,
    /// The type's name.
    pub ident: String,
    /// Its body.
    pub data: Data,
}

/// What a [`DeriveInput`] is in contracts.
pub struct SpecDeriveInput {
    pub vis: Seq<char>,
    pub ident: Seq<char>,
    pub data: SpecData,
}

impl View for DeriveInput {
    type V = SpecDeriveInput;

    open spec fn view(&self) -> SpecDeriveInput {
        SpecDeriveInput { vis: self.vis@, ident: self.ident@, data: self.data@ }
    }
}

} // verus!
