//! Attribute values, maps of them by name, and the conversion that a field's
//! type brings.

use vstd::prelude::*;
use vstd::std_specs::cmp::PartialEqSpecImpl;
use crate::decl::views;

verus! {

/// One value of the store's wire format, tagged by its kind. Two values are
/// equal where they are of one kind and hold the same; the order of a list
/// or a set counts, the order in which a map was filled does not.
#[derive(Debug, Eq)]
pub enum AttributeValue {
    /// A string.
    S(String),
    /// A number, in its decimal writing.
    N(String),
    /// Binary data.
    B(Vec<u8>),
    /// A boolean.
    Bool(bool),
    /// The null value.
    Null,
    /// A list of values.
    L(Vec<AttributeValue>),
    /// A map of values by name.
    M(Attributes),
    /// A set of strings.
    Ss(Vec<String>),
    /// A set of numbers.
    Ns(Vec<String>),
    /// A set of binary data.
    Bs(Vec<Vec<u8>>),
}

/// What an [`AttributeValue`] is in contracts.
pub enum SpecAttributeValue {
    S(Seq<char>),
    N(Seq<char>),
    B(Seq<u8>),
    Bool(bool),
    Null,
    L(Seq<SpecAttributeValue>),
    M(Map<Seq<char>, SpecAttributeValue>),
    Ss(Seq<Seq<char>>),
    Ns(Seq<Seq<char>>),
    Bs(Seq<Seq<u8>>),
}

impl View for AttributeValue {
    type V = SpecAttributeValue;

    open spec fn view(&self) -> SpecAttributeValue
        decreases self,
    {
        match self {
            AttributeValue::S(text) => SpecAttributeValue::S(text@),
            AttributeValue::N(number) => SpecAttributeValue::N(number@),
            AttributeValue::B(bytes) => SpecAttributeValue::B(bytes@),
            AttributeValue::Bool(b) => SpecAttributeValue::Bool(*b),
            AttributeValue::Null => SpecAttributeValue::Null,
            AttributeValue::L(values) => SpecAttributeValue::L(
                Seq::new(
                    values@.len(),
                    |i: int|
                        if 0 <= i < values@.len() {
                            values@[i]@
                        } else {
                            SpecAttributeValue::Null
                        },
                ),
            ),
            AttributeValue::M(map) => SpecAttributeValue::M(map@),
            AttributeValue::Ss(set) => SpecAttributeValue::Ss(views(set@)),
            AttributeValue::Ns(set) => SpecAttributeValue::Ns(views(set@)),
            AttributeValue::Bs(set) => SpecAttributeValue::Bs(views(set@)),
        }
    }
}

/// Why a conversion from attribute values failed.
#[derive(Debug, PartialEq, Eq)]
pub enum AttributeError {
    /// The value has the right kind but not a content that can be read.
    InvalidFormat,
    /// The value is of another kind than the one asked for.
    InvalidType,
    /// The map holds no attribute of this name.
    MissingField { name: String },
}

/// What an [`AttributeError`] is in contracts.
pub enum SpecAttributeError {
    InvalidFormat,
    InvalidType,
    MissingField { name: Seq<char> },
}

impl View for AttributeError {
    type V = SpecAttributeError;

    open spec fn view(&self) -> SpecAttributeError {
        match self {
            AttributeError::InvalidFormat => SpecAttributeError::InvalidFormat,
            AttributeError::InvalidType => SpecAttributeError::InvalidType,
            AttributeError::MissingField { name } => SpecAttributeError::MissingField { name: name@ },
        }
    }
}

/// A map from attribute names to attribute values. No name occurs twice.
/// Two maps are equal where they hold the same values under the same names.
#[derive(Debug, Eq)]
pub struct Attributes {
    entries: Vec<(String, AttributeValue)>,
}

/// The name of the entry at `i`.
spec fn name_at(entries: Seq<(String, AttributeValue)>, i: int) -> Seq<char> {
    entries[i].0@
}

/// Whether no two of `entries` have the same name.
spec fn distinct(entries: Seq<(String, AttributeValue)>) -> bool {
    forall|i: int, j: int|
        0 <= i < j < entries.len() ==> #[trigger] name_at(entries, i) != #[trigger] name_at(
            entries,
            j,
        )
}

/// Whether one of `entries` is named `name`.
spec fn named(entries: Seq<(String, AttributeValue)>, name: Seq<char>) -> bool {
    exists|i: int| 0 <= i < entries.len() && #[trigger] name_at(entries, i) == name
}

/// An index at which `entries` holds the name `name`.
spec fn index_of(entries: Seq<(String, AttributeValue)>, name: Seq<char>) -> int {
    choose|i: int| 0 <= i < entries.len() && #[trigger] name_at(entries, i) == name
}

/// The map that `entries` stand for.
spec fn as_map(entries: Seq<(String, AttributeValue)>) -> Map<Seq<char>, SpecAttributeValue> {
    Map::new(
        |name: Seq<char>| named(entries, name),
        |name: Seq<char>| entries[index_of(entries, name)].1@,
    )
}

/// With distinct names, the entry at `i` is what the map holds for its name.
proof fn lemma_entry(entries: Seq<(String, AttributeValue)>, i: int)
    requires
        distinct(entries),
        0 <= i < entries.len(),
    ensures
        as_map(entries).contains_key(name_at(entries, i)),
        as_map(entries)[name_at(entries, i)] == entries[i].1@,
{
    let name = name_at(entries, i);
    assert(named(entries, name));
    let j = index_of(entries, name);
    assert(name_at(entries, j) == name);
    if j < i {
        assert(name_at(entries, j) != name_at(entries, i));
    } else if i < j {
        assert(name_at(entries, i) != name_at(entries, j));
    }
}

/// Appending an entry with a fresh name inserts it into the map.
proof fn lemma_push(entries: Seq<(String, AttributeValue)>, entry: (String, AttributeValue))
    requires
        distinct(entries),
        !named(entries, entry.0@),
    ensures
        distinct(entries.push(entry)),
        as_map(entries.push(entry)) == as_map(entries).insert(entry.0@, entry.1@),
{
    let after = entries.push(entry);
    assert forall|i: int, j: int| 0 <= i < j < after.len() implies #[trigger] name_at(after, i)
        != #[trigger] name_at(after, j) by {
        if j < entries.len() {
            assert(name_at(entries, i) != name_at(entries, j));
        } else {
            assert(name_at(entries, i) == name_at(after, i));
        }
    }
    assert forall|name: Seq<char>| named(after, name) <==> (named(entries, name) || name
        == entry.0@) by {
        if named(after, name) {
            let i = index_of(after, name);
            if i < entries.len() {
                assert(name_at(entries, i) == name);
            }
        }
        if named(entries, name) {
            let i = index_of(entries, name);
            assert(name_at(after, i) == name);
        }
        if name == entry.0@ {
            assert(name_at(after, entries.len() as int) == name);
        }
    }
    assert forall|name: Seq<char>| named(after, name) implies as_map(after)[name] == as_map(
        entries,
    ).insert(entry.0@, entry.1@)[name] by {
        if name == entry.0@ {
            lemma_entry(after, entries.len() as int);
            assert(name_at(after, entries.len() as int) == name);
        } else {
            let i = index_of(entries, name);
            lemma_entry(entries, i);
            lemma_entry(after, i);
            assert(name_at(after, i) == name);
        }
    }
    assert(as_map(after) =~= as_map(entries).insert(entry.0@, entry.1@));
}

/// Taking the entry at `i` out removes its name from the map.
proof fn lemma_remove(entries: Seq<(String, AttributeValue)>, i: int)
    requires
        distinct(entries),
        0 <= i < entries.len(),
    ensures
        distinct(entries.remove(i)),
        as_map(entries.remove(i)) == as_map(entries).remove(name_at(entries, i)),
{
    let after = entries.remove(i);
    let gone = name_at(entries, i);
    assert forall|a: int| 0 <= a < after.len() implies #[trigger] name_at(after, a) == name_at(
        entries,
        if a < i {
            a
        } else {
            a + 1
        },
    ) by {}
    assert forall|a: int, b: int| 0 <= a < b < after.len() implies #[trigger] name_at(after, a)
        != #[trigger] name_at(after, b) by {
        let a0 = if a < i {
            a
        } else {
            a + 1
        };
        let b0 = if b < i {
            b
        } else {
            b + 1
        };
        assert(name_at(entries, a0) != name_at(entries, b0));
    }
    assert forall|name: Seq<char>| named(after, name) <==> (named(entries, name) && name
        != gone) by {
        if named(after, name) {
            let a = index_of(after, name);
            let a0 = if a < i {
                a
            } else {
                a + 1
            };
            assert(name_at(entries, a0) == name);
            if a0 < i {
                assert(name_at(entries, a0) != name_at(entries, i));
            } else {
                assert(name_at(entries, i) != name_at(entries, a0));
            }
        }
        if named(entries, name) && name != gone {
            let b = index_of(entries, name);
            let b1 = if b < i {
                b
            } else {
                b - 1
            };
            assert(name_at(after, b1) == name);
        }
    }
    assert forall|name: Seq<char>| named(after, name) implies as_map(after)[name] == as_map(
        entries,
    )[name] by {
        let a = index_of(after, name);
        let a0 = if a < i {
            a
        } else {
            a + 1
        };
        lemma_entry(after, a);
        lemma_entry(entries, a0);
    }
    assert(as_map(after) =~= as_map(entries).remove(gone));
}

impl View for Attributes {
    type V = Map<Seq<char>, SpecAttributeValue>;

    closed spec fn view(&self) -> Map<Seq<char>, SpecAttributeValue>
        decreases self,
    {
        Map::new(
            |name: Seq<char>| named(self.entries@, name),
            |name: Seq<char>|
                if named(self.entries@, name) {
                    self.entries@[index_of(self.entries@, name)].1@
                } else {
                    SpecAttributeValue::Null
                },
        )
    }
}

impl Attributes {
    #[verifier::type_invariant]
    spec fn well_formed(self) -> bool {
        distinct(self.entries@)
    }

    /// The view is the map that the entries stand for.
    proof fn lemma_view(self)
        ensures
            self@ == as_map(self.entries@),
    {
        assert(self@ =~= as_map(self.entries@));
    }

    /// The empty map.
    pub fn new() -> (r: Self)
        ensures
            r@ == Map::<Seq<char>, SpecAttributeValue>::empty(),
    {
        let r = Attributes { entries: Vec::new() };
        assert(r@ =~= Map::<Seq<char>, SpecAttributeValue>::empty());
        r
    }

    /// The index of the entry named `name`, if there is one.
    fn position(&self, name: &String) -> (r: Option<usize>)
        ensures
            match r {
                Some(i) => i < self.entries@.len() && name_at(self.entries@, i as int) == name@,
                None => !named(self.entries@, name@),
            },
    {
        let mut i: usize = 0;
        while i < self.entries.len()
            invariant
                i <= self.entries.len(),
                forall|j: int| 0 <= j < i ==> #[trigger] name_at(self.entries@, j) != name@,
            decreases self.entries.len() - i,
        {
            if self.entries[i].0 == *name {
                assert(name_at(self.entries@, i as int) == name@);
                return Some(i);
            }
            i = i + 1;
        }
        None
    }

    /// Whether the map holds an attribute named `name`.
    pub fn contains_key(&self, name: &str) -> (r: bool)
        ensures
            r == self@.contains_key(name@),
    {
        proof {
            self.lemma_view();
        }
        let name = name.to_string();
        self.position(&name).is_some()
    }

    /// The attribute named `name`, if the map holds one.
    pub fn get(&self, name: &str) -> (r: Option<&AttributeValue>)
        ensures
            match r {
                Some(value) => self@.contains_key(name@) && value@ == self@[name@],
                None => !self@.contains_key(name@),
            },
    {
        proof {
            self.lemma_view();
        }
        let name = name.to_string();
        match self.position(&name) {
            Some(i) => {
                proof {
                    use_type_invariant(self);
                    lemma_entry(self.entries@, i as int);
                }
                Some(&self.entries[i].1)
            },
            None => None,
        }
    }

    /// Takes the attribute named `name` out of the map, if it holds one.
    pub fn remove(&mut self, name: &str) -> (r: Option<AttributeValue>)
        ensures
            final(self)@ == old(self)@.remove(name@),
            match r {
                Some(value) => old(self)@.contains_key(name@) && value@ == old(self)@[name@],
                None => !old(self)@.contains_key(name@),
            },
    {
        proof {
            use_type_invariant(&*self);
            self.lemma_view();
        }
        let name = name.to_string();
        match self.position(&name) {
            Some(i) => {
                proof {
                    lemma_entry(self.entries@, i as int);
                    lemma_remove(self.entries@, i as int);
                }
                let mut taken = Attributes::new();
                core::mem::swap(self, &mut taken);
                let mut entries = taken.entries;
                let entry = entries.remove(i);
                *self = Attributes { entries };
                proof {
                    self.lemma_view();
                }
                Some(entry.1)
            },
            None => {
                assert(self@ =~= self@.remove(name@));
                None
            },
        }
    }

    /// Puts `value` under `name`, and hands back what the map held there.
    pub fn insert(&mut self, name: String, value: AttributeValue) -> (r: Option<AttributeValue>)
        ensures
            final(self)@ == old(self)@.insert(name@, value@),
            match r {
                Some(before) => old(self)@.contains_key(name@) && before@ == old(self)@[name@],
                None => !old(self)@.contains_key(name@),
            },
    {
        let before = self.remove(name.as_str());
        proof {
            use_type_invariant(&*self);
            self.lemma_view();
            assert(!as_map(self.entries@).contains_key(name@));
            lemma_push(self.entries@, (name, value));
            assert(old(self)@.remove(name@).insert(name@, value@) =~= old(self)@.insert(
                name@,
                value@,
            ));
        }
        let mut taken = Attributes::new();
        core::mem::swap(self, &mut taken);
        let mut entries = taken.entries;
        entries.push((name, value));
        *self = Attributes { entries };
        proof {
            self.lemma_view();
        }
        before
    }
}

/// Whether `a` and `b` hold the same bytes.
fn same_bytes(a: &Vec<u8>, b: &Vec<u8>) -> (r: bool)
    ensures
        r == (a@ == b@),
{
    if a.len() != b.len() {
        return false;
    }
    let mut i: usize = 0;
    while i < a.len()
        invariant
            i <= a.len(),
            a.len() == b.len(),
            forall|j: int| 0 <= j < i ==> a@[j] == b@[j],
        decreases a.len() - i,
    {
        if a[i] != b[i] {
            return false;
        }
        i = i + 1;
    }
    assert(a@ =~= b@);
    true
}

/// Whether `a` and `b` hold the same strings in the same order.
fn same_texts(a: &Vec<String>, b: &Vec<String>) -> (r: bool)
    ensures
        r == (views(a@) == views(b@)),
{
    if a.len() != b.len() {
        assert(views(a@).len() != views(b@).len());
        return false;
    }
    let mut i: usize = 0;
    while i < a.len()
        invariant
            i <= a.len(),
            a.len() == b.len(),
            forall|j: int| 0 <= j < i ==> a@[j]@ == b@[j]@,
        decreases a.len() - i,
    {
        if a[i] != b[i] {
            assert(views(a@)[i as int] != views(b@)[i as int]);
            return false;
        }
        i = i + 1;
    }
    assert(views(a@) =~= views(b@));
    true
}

/// Whether `a` and `b` hold the same byte strings in the same order.
fn same_blobs(a: &Vec<Vec<u8>>, b: &Vec<Vec<u8>>) -> (r: bool)
    ensures
        r == (views(a@) == views(b@)),
{
    if a.len() != b.len() {
        assert(views(a@).len() != views(b@).len());
        return false;
    }
    let mut i: usize = 0;
    while i < a.len()
        invariant
            i <= a.len(),
            a.len() == b.len(),
            forall|j: int| 0 <= j < i ==> a@[j]@ == b@[j]@,
        decreases a.len() - i,
    {
        if !same_bytes(&a[i], &b[i]) {
            assert(views(a@)[i as int] != views(b@)[i as int]);
            return false;
        }
        i = i + 1;
    }
    assert(views(a@) =~= views(b@));
    true
}

impl PartialEqSpecImpl for AttributeValue {
    open spec fn obeys_eq_spec() -> bool {
        true
    }

    open spec fn eq_spec(&self, other: &AttributeValue) -> bool {
        self@ == other@
    }
}

impl PartialEq for AttributeValue {
    fn eq(&self, other: &AttributeValue) -> (r: bool)
        decreases self,
    {
        match (self, other) {
            (AttributeValue::S(a), AttributeValue::S(b)) => *a == *b,
            (AttributeValue::N(a), AttributeValue::N(b)) => *a == *b,
            (AttributeValue::B(a), AttributeValue::B(b)) => same_bytes(a, b),
            (AttributeValue::Bool(a), AttributeValue::Bool(b)) => *a == *b,
            (AttributeValue::Null, AttributeValue::Null) => true,
            (AttributeValue::L(a), AttributeValue::L(b)) => {
                if a.len() != b.len() {
                    assert(self@->L_0.len() != other@->L_0.len());
                    return false;
                }
                let mut i: usize = 0;
                while i < a.len()
                    invariant
                        i <= a.len(),
                        a.len() == b.len(),
                        self is L,
                        self->L_0 == *a,
                        other is L,
                        other->L_0 == *b,
                        forall|j: int| 0 <= j < i ==> a@[j]@ == b@[j]@,
                    decreases a.len() - i,
                {
                    if !a[i].eq(&b[i]) {
                        assert(self@->L_0[i as int] != other@->L_0[i as int]);
                        return false;
                    }
                    i = i + 1;
                }
                assert(self@->L_0 =~= other@->L_0);
                true
            },
            (AttributeValue::M(a), AttributeValue::M(b)) => a.eq(b),
            (AttributeValue::Ss(a), AttributeValue::Ss(b)) => same_texts(a, b),
            (AttributeValue::Ns(a), AttributeValue::Ns(b)) => same_texts(a, b),
            (AttributeValue::Bs(a), AttributeValue::Bs(b)) => same_blobs(a, b),
            _ => false,
        }
    }
}

impl PartialEqSpecImpl for Attributes {
    open spec fn obeys_eq_spec() -> bool {
        true
    }

    open spec fn eq_spec(&self, other: &Attributes) -> bool {
        self@ == other@
    }
}

impl PartialEq for Attributes {
    fn eq(&self, other: &Attributes) -> (r: bool)
        decreases self,
    {
        proof {
            use_type_invariant(self);
            use_type_invariant(other);
            self.lemma_view();
            other.lemma_view();
        }
        let mut i: usize = 0;
        while i < self.entries.len()
            invariant
                i <= self.entries.len(),
                distinct(self.entries@),
                distinct(other.entries@),
                self@ == as_map(self.entries@),
                other@ == as_map(other.entries@),
                forall|j: int|
                    0 <= j < i ==> other@.contains_key(#[trigger] name_at(self.entries@, j))
                        && other@[name_at(self.entries@, j)] == self.entries@[j].1@,
            decreases self.entries.len() - i,
        {
            proof {
                lemma_entry(self.entries@, i as int);
            }
            match other.position(&self.entries[i].0) {
                Some(j) => {
                    proof {
                        lemma_entry(other.entries@, j as int);
                    }
                    if !self.entries[i].1.eq(&other.entries[j].1) {
                        assert(self@[name_at(self.entries@, i as int)] != other@[name_at(
                            self.entries@,
                            i as int,
                        )]);
                        return false;
                    }
                },
                None => {
                    assert(self@.contains_key(name_at(self.entries@, i as int)));
                    assert(!other@.contains_key(name_at(self.entries@, i as int)));
                    return false;
                },
            }
            i = i + 1;
        }
        let mut j: usize = 0;
        while j < other.entries.len()
            invariant
                j <= other.entries.len(),
                distinct(other.entries@),
                self@ == as_map(self.entries@),
                other@ == as_map(other.entries@),
                forall|k: int|
                    0 <= k < j ==> self@.contains_key(#[trigger] name_at(other.entries@, k)),
            decreases other.entries.len() - j,
        {
            proof {
                lemma_entry(other.entries@, j as int);
            }
            if self.position(&other.entries[j].0).is_none() {
                assert(other@.contains_key(name_at(other.entries@, j as int)));
                assert(!self@.contains_key(name_at(other.entries@, j as int)));
                return false;
            }
            j = j + 1;
        }
        proof {
            assert forall|name: Seq<char>| self@.contains_key(name) <==> other@.contains_key(
                name,
            ) by {
                if self@.contains_key(name) {
                    let a = index_of(self.entries@, name);
                    assert(name_at(self.entries@, a) == name);
                }
                if other@.contains_key(name) {
                    let b = index_of(other.entries@, name);
                    assert(name_at(other.entries@, b) == name);
                }
            }
            assert forall|name: Seq<char>| self@.contains_key(name) implies self@[name]
                == other@[name] by {
                let a = index_of(self.entries@, name);
                assert(name_at(self.entries@, a) == name);
                lemma_entry(self.entries@, a);
            }
            assert(self@ =~= other@);
        }
        true
    }
}

impl Clone for AttributeValue {
    /// A copy of the value.
    fn clone(&self) -> (r: Self)
        ensures
            r@ == self@,
        decreases self,
    {
        match self {
            AttributeValue::S(text) => AttributeValue::S(text.clone()),
            AttributeValue::N(number) => AttributeValue::N(number.clone()),
            AttributeValue::B(bytes) => AttributeValue::B(bytes.clone()),
            AttributeValue::Bool(b) => AttributeValue::Bool(*b),
            AttributeValue::Null => AttributeValue::Null,
            AttributeValue::L(values) => {
                let mut copies: Vec<AttributeValue> = Vec::new();
                let mut i: usize = 0;
                while i < values.len()
                    invariant
                        i <= values.len(),
                        copies@.len() == i,
                        self is L,
                        self->L_0 == *values,
                        forall|j: int| 0 <= j < i ==> copies@[j]@ == values@[j]@,
                    decreases values.len() - i,
                {
                    copies.push(values[i].clone());
                    i = i + 1;
                }
                let r = AttributeValue::L(copies);
                assert(r@->L_0 =~= self@->L_0);
                r
            },
            AttributeValue::M(map) => AttributeValue::M(map.clone()),
            AttributeValue::Ss(set) => {
                let copy = set.clone();
                assert(views(copy@) =~= views(set@));
                AttributeValue::Ss(copy)
            },
            AttributeValue::Ns(set) => {
                let copy = set.clone();
                assert(views(copy@) =~= views(set@));
                AttributeValue::Ns(copy)
            },
            AttributeValue::Bs(set) => {
                let copy = set.clone();
                assert(views(copy@) =~= views(set@));
                AttributeValue::Bs(copy)
            },
        }
    }
}

impl Clone for Attributes {
    /// A copy of the map.
    fn clone(&self) -> (r: Self)
        ensures
            r@ == self@,
        decreases self,
    {
        proof {
            use_type_invariant(self);
            self.lemma_view();
        }
        let mut entries: Vec<(String, AttributeValue)> = Vec::new();
        let mut i: usize = 0;
        while i < self.entries.len()
            invariant
                i <= self.entries.len(),
                entries@.len() == i,
                forall|j: int|
                    0 <= j < i ==> #[trigger] name_at(entries@, j) == name_at(self.entries@, j)
                        && entries@[j].1@ == self.entries@[j].1@,
            decreases self.entries.len() - i,
        {
            let entry = &self.entries[i];
            let ghost before = entries@;
            entries.push((entry.0.clone(), entry.1.clone()));
            i = i + 1;
            assert forall|j: int| 0 <= j < i implies #[trigger] name_at(entries@, j) == name_at(
                self.entries@,
                j,
            ) && entries@[j].1@ == self.entries@[j].1@ by {
                if j < i - 1 {
                    assert(name_at(before, j) == name_at(self.entries@, j));
                }
            }
        }
        proof {
            assert forall|a: int, b: int| 0 <= a < b < entries@.len() implies #[trigger] name_at(
                entries@,
                a,
            ) != #[trigger] name_at(entries@, b) by {
                assert(name_at(self.entries@, a) != name_at(self.entries@, b));
            }
            assert forall|name: Seq<char>| named(entries@, name) <==> named(
                self.entries@,
                name,
            ) by {
                if named(entries@, name) {
                    let a = index_of(entries@, name);
                    assert(name_at(self.entries@, a) == name);
                }
                if named(self.entries@, name) {
                    let a = index_of(self.entries@, name);
                    assert(name_at(entries@, a) == name);
                }
            }
            assert forall|name: Seq<char>| named(entries@, name) implies as_map(entries@)[name]
                == as_map(self.entries@)[name] by {
                let a = index_of(entries@, name);
                assert(name_at(self.entries@, a) == name);
                lemma_entry(entries@, a);
                lemma_entry(self.entries@, a);
            }
            assert(as_map(entries@) =~= as_map(self.entries@));
        }
        let r = Attributes { entries };
        proof {
            r.lemma_view();
        }
        r
    }
}

/// The conversion between the values of a field's type and attribute values,
/// with the value that a missing attribute stands for.
///
/// In contracts a value of the type is taken by its model. `Model`, `model`,
/// `attr`, `parsed`, `absent` and `round_trip` describe the conversion and
/// are never called when the program runs; `into_attr`, `from_attr` and
/// `default_value` carry it out.
pub trait Attribute: Sized {
    /// What a value of the type is in contracts.
    type Model;

    /// The model of `self`.
    spec fn model(&self) -> Self::Model;

    /// The attribute value that `value` is written as.
    spec fn attr(value: Self::Model) -> SpecAttributeValue;

    /// What `value` is read as.
    spec fn parsed(value: SpecAttributeValue) -> Result<Self::Model, SpecAttributeError>;

    /// The type's default value.
    spec fn absent() -> Self::Model;

    /// Writes `self` as an attribute value.
    fn into_attr(self) -> (r: AttributeValue)
        ensures
            r@ == Self::attr(self.model()),
    ;

    /// Reads `value`, or says why it cannot be read.
    fn from_attr(value: AttributeValue) -> (r: Result<Self, AttributeError>)
        ensures
            match r {
                Ok(read) => Self::parsed(value@) == Ok::<Self::Model, SpecAttributeError>(
                    read.model(),
                ),
                Err(e) => Self::parsed(value@) == Err::<Self::Model, SpecAttributeError>(e@),
            },
    ;

    /// The type's default value.
    fn default_value() -> (r: Self)
        ensures
            r.model() == Self::absent(),
    ;

    /// What was written is read back as it was.
    proof fn round_trip(value: Self::Model)
        ensures
            Self::parsed(Self::attr(value)) == Ok::<Self::Model, SpecAttributeError>(value),
    ;
}

/// The models of the items of a sequence, in the same order.
pub open spec fn models<V: Attribute>(s: Seq<V>) -> Seq<V::Model> {
    Seq::new(s.len(), |i: int| s[i].model())
}

/// A boolean is written as a boolean value; its default is `false`.
impl Attribute for bool {
    type Model = bool;

    open spec fn model(&self) -> bool {
        *self
    }

    open spec fn attr(value: bool) -> SpecAttributeValue {
        SpecAttributeValue::Bool(value)
    }

    open spec fn parsed(value: SpecAttributeValue) -> Result<bool, SpecAttributeError> {
        match value {
            SpecAttributeValue::Bool(b) => Ok(b),
            _ => Err(SpecAttributeError::InvalidType),
        }
    }

    open spec fn absent() -> bool {
        false
    }

    fn into_attr(self) -> (r: AttributeValue) {
        AttributeValue::Bool(self)
    }

    fn from_attr(value: AttributeValue) -> (r: Result<Self, AttributeError>) {
        match value {
            AttributeValue::Bool(b) => Ok(b),
            _ => Err(AttributeError::InvalidType),
        }
    }

    fn default_value() -> (r: Self) {
        false
    }

    proof fn round_trip(value: bool) {
    }
}

/// A string is written as a string value; its default is the empty string.
impl Attribute for String {
    type Model = Seq<char>;

    open spec fn model(&self) -> Seq<char> {
        self@
    }

    open spec fn attr(value: Seq<char>) -> SpecAttributeValue {
        SpecAttributeValue::S(value)
    }

    open spec fn parsed(value: SpecAttributeValue) -> Result<Seq<char>, SpecAttributeError> {
        match value {
            SpecAttributeValue::S(text) => Ok(text),
            _ => Err(SpecAttributeError::InvalidType),
        }
    }

    open spec fn absent() -> Seq<char> {
        Seq::empty()
    }

    fn into_attr(self) -> (r: AttributeValue) {
        AttributeValue::S(self)
    }

    fn from_attr(value: AttributeValue) -> (r: Result<Self, AttributeError>) {
        match value {
            AttributeValue::S(text) => Ok(text),
            _ => Err(AttributeError::InvalidType),
        }
    }

    fn default_value() -> (r: Self) {
        String::new()
    }

    proof fn round_trip(value: Seq<char>) {
    }
}

/// An attribute value is written as it is; its default is the null value.
impl Attribute for AttributeValue {
    type Model = SpecAttributeValue;

    open spec fn model(&self) -> SpecAttributeValue {
        self@
    }

    open spec fn attr(value: SpecAttributeValue) -> SpecAttributeValue {
        value
    }

    open spec fn parsed(value: SpecAttributeValue) -> Result<
        SpecAttributeValue,
        SpecAttributeError,
    > {
        Ok(value)
    }

    open spec fn absent() -> SpecAttributeValue {
        SpecAttributeValue::Null
    }

    fn into_attr(self) -> (r: AttributeValue) {
        self
    }

    fn from_attr(value: AttributeValue) -> (r: Result<Self, AttributeError>) {
        Ok(value)
    }

    fn default_value() -> (r: Self) {
        AttributeValue::Null
    }

    proof fn round_trip(value: SpecAttributeValue) {
    }
}

} // verus!
