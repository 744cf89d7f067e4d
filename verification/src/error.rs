//! The ways in which a declaration can be unfit for a derive.

use vstd::prelude::*;
use vstd::string::*;
use crate::text::{decimal, decimal_string};

verus! {

/// Why nothing can be derived for a declaration. Each error carries the name
/// of the declared type.
#[derive(Debug, PartialEq, Eq)]
pub enum ExpandError {
    /// An item whose fields hold `count` partition keys, where `count` is
    /// not one.
    PartitionKeyCount { name: String, count: usize },
    /// An item that is a struct, but not one with named fields.
    ItemWithoutNamedFields { name: String },
    /// An item that is no struct.
    ItemNotStruct { name: String },
    /// A record of attributes that is a struct, but not one with named
    /// fields.
    AttributesWithoutNamedFields { name: String },
    /// A record of attributes that is no struct.
    AttributesNotStruct { name: String },
    /// An attribute that is no enum.
    AttributeNotEnum { name: String },
}

/// What an [`ExpandError`] is in contracts.
pub enum SpecExpandError {
    PartitionKeyCount { name: Seq<char>, count: nat },
    ItemWithoutNamedFields { name: Seq<char> },
    ItemNotStruct { name: Seq<char> },
    AttributesWithoutNamedFields { name: Seq<char> },
    AttributesNotStruct { name: Seq<char> },
    AttributeNotEnum { name: Seq<char> },
}

impl View for ExpandError {
    type V = SpecExpandError;

    open spec fn view(&self) -> SpecExpandError {
        match self {
            ExpandError::PartitionKeyCount { name, count } => SpecExpandError::PartitionKeyCount {
                name: name@,
                count: *count as nat,
            },
            ExpandError::ItemWithoutNamedFields { name } => SpecExpandError::ItemWithoutNamedFields {
                name: name@,
            },
            ExpandError::ItemNotStruct { name } => SpecExpandError::ItemNotStruct { name: name@ },
            ExpandError::AttributesWithoutNamedFields {
                name,
            } => SpecExpandError::AttributesWithoutNamedFields { name: name@ },
            ExpandError::AttributesNotStruct { name } => SpecExpandError::AttributesNotStruct {
                name: name@,
            },
            ExpandError::AttributeNotEnum { name } => SpecExpandError::AttributeNotEnum {
                name: name@,
            },
        }
    }
}

impl SpecExpandError {
    /// The name of the declared type.
    pub open spec fn name(self) -> Seq<char> {
        match self {
            SpecExpandError::PartitionKeyCount { name, .. } => name,
            SpecExpandError::ItemWithoutNamedFields { name } => name,
            SpecExpandError::ItemNotStruct { name } => name,
            SpecExpandError::AttributesWithoutNamedFields { name } => name,
            SpecExpandError::AttributesNotStruct { name } => name,
            SpecExpandError::AttributeNotEnum { name } => name,
        }
    }

    /// What the error says of the type, before the type's name.
    pub open spec fn complaint(self) -> Seq<char> {
        match self {
            SpecExpandError::PartitionKeyCount {
                ..
            } => "All Item's must declare one and only one partition_key. The `"@,
            SpecExpandError::ItemWithoutNamedFields {
                ..
            } => "Dynomite Items require named fields, which `"@,
            SpecExpandError::ItemNotStruct { .. } => "Dynomite Items can only be generated for structs, which `"@,
            SpecExpandError::AttributesWithoutNamedFields {
                ..
            } => "Dynomite Attributes require named fields, which `"@,
            SpecExpandError::AttributesNotStruct {
                ..
            } => "Dynomite Attributes can only be generated for structs, which `"@,
            SpecExpandError::AttributeNotEnum {
                ..
            } => "Dynomite Attributes can only be generated for enum types, which `"@,
        }
    }

    /// What the error says after the type's name.
    pub open spec fn finding(self) -> Seq<char> {
        match self {
            SpecExpandError::PartitionKeyCount { count, .. } => "` Item declared "@ + decimal(count),
            SpecExpandError::ItemWithoutNamedFields { .. } => "` does not have"@,
            SpecExpandError::ItemNotStruct { .. } => "` is not"@,
            SpecExpandError::AttributesWithoutNamedFields { .. } => "` does not have"@,
            SpecExpandError::AttributesNotStruct { .. } => "` is not"@,
            SpecExpandError::AttributeNotEnum { .. } => "` is not"@,
        }
    }

    /// The error in words: the complaint, the type's name between backticks,
    /// and what was found.
    pub open spec fn message(self) -> Seq<char> {
        self.complaint() + self.name() + self.finding()
    }
}

impl ExpandError {
    /// The name of the declared type.
    pub fn name(&self) -> (r: &String)
        ensures
            r@ == self@.name(),
    {
        match self {
            ExpandError::PartitionKeyCount { name, .. } => name,
            ExpandError::ItemWithoutNamedFields { name } => name,
            ExpandError::ItemNotStruct { name } => name,
            ExpandError::AttributesWithoutNamedFields { name } => name,
            ExpandError::AttributesNotStruct { name } => name,
            ExpandError::AttributeNotEnum { name } => name,
        }
    }

    /// The error in words.
    pub fn message(&self) -> (r: String)
        ensures
            r@ == self@.message(),
    {
        let mut r = match self {
            ExpandError::PartitionKeyCount {
                ..
            } => "All Item's must declare one and only one partition_key. The `".to_string(),
            ExpandError::ItemWithoutNamedFields {
                ..
            } => "Dynomite Items require named fields, which `".to_string(),
            ExpandError::ItemNotStruct {
                ..
            } => "Dynomite Items can only be generated for structs, which `".to_string(),
            ExpandError::AttributesWithoutNamedFields {
                ..
            } => "Dynomite Attributes require named fields, which `".to_string(),
            ExpandError::AttributesNotStruct {
                ..
            } => "Dynomite Attributes can only be generated for structs, which `".to_string(),
            ExpandError::AttributeNotEnum {
                ..
            } => "Dynomite Attributes can only be generated for enum types, which `".to_string(),
        };
        r.append(self.name().as_str());
        match self {
            ExpandError::PartitionKeyCount { count, .. } => {
                let mut finding = "` Item declared ".to_string();
                finding.append(decimal_string(*count).as_str());
                r.append(finding.as_str());
            },
            ExpandError::ItemWithoutNamedFields { .. } => {
                r.append("` does not have");
            },
            ExpandError::ItemNotStruct { .. } => {
                r.append("` is not");
            },
            ExpandError::AttributesWithoutNamedFields { .. } => {
                r.append("` does not have");
            },
            ExpandError::AttributesNotStruct { .. } => {
                r.append("` is not");
            },
            ExpandError::AttributeNotEnum { .. } => {
                r.append("` is not");
            },
        }
        r
    }
}

} // verus!
