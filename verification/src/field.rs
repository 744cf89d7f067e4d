//! Fields with their annotations: which role a field plays and under which
//! name its attribute is stored.

use vstd::prelude::*;
use crate::decl::{views, Attr, Field, RawAttribute, SpecAttr, SpecField, SpecRawAttribute};

verus! {

/// The annotations of the `dynomite` attributes among `all_attrs`, in source
/// order.
pub open spec fn parsed_attrs(all_attrs: Seq<SpecRawAttribute>) -> Seq<SpecAttr>
    decreases all_attrs.len(),
{
    if all_attrs.len() == 0 {
        Seq::empty()
    } else if all_attrs.last().path == "dynomite"@ {
        parsed_attrs(all_attrs.drop_last()) + all_attrs.last().args
    } else {
        parsed_attrs(all_attrs.drop_last())
    }
}

/// The name of the first `rename` among `attrs`, if there is one.
pub open spec fn first_rename(attrs: Seq<SpecAttr>) -> Option<Seq<char>>
    decreases attrs.len(),
{
    if attrs.len() == 0 {
        None
    } else {
        match attrs[0] {
            SpecAttr::Rename(name) => Some(name),
            _ => first_rename(attrs.skip(1)),
        }
    }
}

/// Whether an attribute of the path `path` holds annotations: whether the
/// path is `dynomite` and nothing else.
pub fn is_dynomite(path: &str) -> (r: bool)
    ensures
        r == (path@ == "dynomite"@),
{
    path.to_string() == "dynomite".to_string()
}

/// Collects the annotations of the attributes whose path is `dynomite`.
pub fn parse_attrs(all_attrs: &[RawAttribute]) -> (attrs: Vec<Attr>)
    ensures
        views(attrs@) == parsed_attrs(views(all_attrs@)),
{
    let mut attrs: Vec<Attr> = Vec::new();
    let mut i: usize = 0;
    while i < all_attrs.len()
        invariant
            i <= all_attrs.len(),
            views(attrs@) == parsed_attrs(views(all_attrs@).take(i as int)),
        decreases all_attrs.len() - i,
    {
        let ghost before = views(attrs@);
        let attr = &all_attrs[i];
        if is_dynomite(attr.path.as_str()) {
            let mut j: usize = 0;
            while j < attr.args.len()
                invariant
                    j <= attr.args.len(),
                    views(attrs@) == before + views(attr.args@).take(j as int),
                decreases attr.args.len() - j,
            {
                let ghost prev = attrs@;
                attrs.push(attr.args[j].clone());
                j = j + 1;
                proof {
                    let added = attr.args@[j - 1]@;
                    assert(views(attrs@) =~= views(prev).push(added));
                    assert(views(attr.args@).take(j as int) =~= views(attr.args@).take(j - 1).push(
                        added,
                    ));
                    assert(views(attrs@) =~= before + views(attr.args@).take(j as int));
                }
            }
            assert(views(attr.args@).take(j as int) =~= views(attr.args@));
        }
        i = i + 1;
        proof {
            let next = views(all_attrs@).take(i as int);
            assert(next.drop_last() =~= views(all_attrs@).take(i - 1));
            assert(next.last() == attr@);
        }
    }
    assert(views(all_attrs@).take(i as int) =~= views(all_attrs@));
    attrs
}

/// A field together with the annotations found on it.
#[derive(Debug, PartialEq, Eq)]
pub struct ItemField<'a> {
    /// The field as declared.
    pub field: &'a Field,
    /// Its annotations, in source order.
    pub attrs: Vec<Attr>,
}

/// What an [`ItemField`] is in contracts.
pub struct SpecItemField {
    pub field: SpecField,
    pub attrs: Seq<SpecAttr>,
}

impl SpecItemField {
    /// The field as it comes out of its declaration.
    pub open spec fn of(field: SpecField) -> SpecItemField {
        SpecItemField { field, attrs: parsed_attrs(field.attrs) }
    }

    /// Whether the field is annotated as the partition key.
    pub open spec fn is_partition_key(self) -> bool {
        self.attrs.contains(SpecAttr::PartitionKey)
    }

    /// Whether the field is annotated as the sort key.
    pub open spec fn is_sort_key(self) -> bool {
        self.attrs.contains(SpecAttr::SortKey)
    }

    /// Whether a missing attribute decodes to the field type's default.
    pub open spec fn is_default_when_absent(self) -> bool {
        self.attrs.contains(SpecAttr::Default)
    }

    /// The name under which the field's attribute is stored: that of its
    /// first `rename`, else the field's own.
    pub open spec fn deser_name(self) -> Seq<char> {
        match first_rename(self.attrs) {
            Some(name) => name,
            None => self.field.ident,
        }
    }
}

impl<'a> View for ItemField<'a> {
    type V = SpecItemField;

    open spec fn view(&self) -> SpecItemField {
        SpecItemField { field: self.field@, attrs: views(self.attrs@) }
    }
}

impl<'a> Clone for ItemField<'a> {
    fn clone(&self) -> (r: Self)
        ensures
            r@ == self@,
    {
        let attrs = self.attrs.clone();
        assert(views(attrs@) =~= views(self.attrs@));
        ItemField { field: self.field, attrs }
    }
}

impl<'a> ItemField<'a> {
    /// Reads the annotations off `field`.
    pub fn new(field: &'a Field) -> (r: Self)
        ensures
            r@ == SpecItemField::of(field@),
    {
        let attrs = parse_attrs(field.attrs.as_slice());
        ItemField { field, attrs }
    }

    /// Whether some annotation equal to `wanted` is on the field.
    fn has(&self, wanted: &Attr) -> (r: bool)
        requires
            !(wanted@ is Rename),
        ensures
            r == self@.attrs.contains(wanted@),
    {
        let mut i: usize = 0;
        while i < self.attrs.len()
            invariant
                i <= self.attrs.len(),
                !(wanted@ is Rename),
                forall|j: int| 0 <= j < i ==> views(self.attrs@)[j] != wanted@,
            decreases self.attrs.len() - i,
        {
            let same = match (&self.attrs[i], wanted) {
                (Attr::PartitionKey, Attr::PartitionKey) => true,
                (Attr::SortKey, Attr::SortKey) => true,
                (Attr::Default, Attr::Default) => true,
                _ => false,
            };
            if same {
                assert(views(self.attrs@)[i as int] == wanted@);
                return true;
            }
            i = i + 1;
        }
        false
    }

    /// Whether the field is annotated as the partition key.
    pub fn is_partition_key(&self) -> (r: bool)
        ensures
            r == self@.is_partition_key(),
    {
        self.has(&Attr::PartitionKey)
    }

    /// Whether the field is annotated as the sort key.
    pub fn is_sort_key(&self) -> (r: bool)
        ensures
            r == self@.is_sort_key(),
    {
        self.has(&Attr::SortKey)
    }

    /// Whether a missing attribute decodes to the field type's default.
    pub fn is_default_when_absent(&self) -> (r: bool)
        ensures
            r == self@.is_default_when_absent(),
    {
        self.has(&Attr::Default)
    }

    /// The name under which the field's attribute is stored.
    pub fn deser_name(&self) -> (name: String)
        ensures
            name@ == self@.deser_name(),
    {
        let ghost all = views(self.attrs@);
        assert(all.skip(0) =~= all);
        let mut i: usize = 0;
        while i < self.attrs.len()
            invariant
                i <= self.attrs.len(),
                all == views(self.attrs@),
                first_rename(all) == first_rename(all.skip(i as int)),
            decreases self.attrs.len() - i,
        {
            assert(all.skip(i as int)[0] == all[i as int]);
            assert(all.skip(i as int).skip(1) =~= all.skip(i + 1));
            match &self.attrs[i] {
                Attr::Rename(name) => {
                    return name.clone();
                },
                _ => {},
            }
            i = i + 1;
        }
        self.field.ident.clone()
    }
}

/// Whether `i` is the first index at which `flags` holds `true`.
pub open spec fn is_first_set(flags: Seq<bool>, i: int) -> bool {
    &&& 0 <= i < flags.len()
    &&& flags[i]
    &&& forall|j: int| 0 <= j < i ==> !flags[j]
}

/// The first index at which `flags` holds `true`, if there is one.
pub open spec fn first_set(flags: Seq<bool>) -> Option<int> {
    if flags.contains(true) {
        Some(choose|i: int| is_first_set(flags, i))
    } else {
        None
    }
}

/// At how many indices `flags` holds `true`.
pub open spec fn count_set(flags: Seq<bool>) -> nat
    decreases flags.len(),
{
    if flags.len() == 0 {
        0
    } else if flags.last() {
        count_set(flags.drop_last()) + 1
    } else {
        count_set(flags.drop_last())
    }
}

/// For each of `fields`, whether it is annotated as the partition key.
pub open spec fn partition_flags(fields: Seq<SpecItemField>) -> Seq<bool> {
    Seq::new(fields.len(), |i: int| fields[i].is_partition_key())
}

/// For each of `fields`, whether it is annotated as the sort key.
pub open spec fn sort_flags(fields: Seq<SpecItemField>) -> Seq<bool> {
    Seq::new(fields.len(), |i: int| fields[i].is_sort_key())
}

/// The first field annotated as the partition key, if there is one.
pub open spec fn first_partition_key(fields: Seq<SpecItemField>) -> Option<int> {
    first_set(partition_flags(fields))
}

/// The first field annotated as the sort key, if there is one.
pub open spec fn first_sort_key(fields: Seq<SpecItemField>) -> Option<int> {
    first_set(sort_flags(fields))
}

/// How many fields are annotated as the partition key.
pub open spec fn partition_key_count(fields: Seq<SpecItemField>) -> nat {
    count_set(partition_flags(fields))
}

/// How many fields are annotated as the sort key.
pub open spec fn sort_key_count(fields: Seq<SpecItemField>) -> nat {
    count_set(sort_flags(fields))
}

/// `flags` holds `true` at as many indices as it has, at most; at none
/// exactly where it never holds `true`; and where it holds `true` at two
/// different indices, at two or more.
pub proof fn lemma_count_set(flags: Seq<bool>)
    ensures
        count_set(flags) <= flags.len(),
        count_set(flags) == 0 <==> !flags.contains(true),
        forall|i: int, j: int|
            0 <= i < j < flags.len() && flags[i] && flags[j] ==> count_set(flags) >= 2,
    decreases flags.len(),
{
    if flags.len() > 0 {
        let front = flags.drop_last();
        let last = flags.len() - 1;
        lemma_count_set(front);
        if front.contains(true) {
            let k = choose|k: int| 0 <= k < front.len() && front[k] == true;
            assert(flags[k] == true);
        }
        if flags.contains(true) && !flags.last() {
            let k = choose|k: int| 0 <= k < flags.len() && flags[k] == true;
            assert(front[k] == true);
        }
        if flags.last() {
            assert(flags[last] == true);
        }
        assert forall|i: int, j: int|
            0 <= i < j < flags.len() && flags[i] && flags[j] implies count_set(flags) >= 2 by {
            if j < last {
                assert(front[i] && front[j]);
            } else {
                assert(front[i] == true);
                assert(front.contains(true));
            }
        }
    }
}

/// `first_set` is the index that `is_first_set` holds of.
pub proof fn lemma_first_set(flags: Seq<bool>, i: int)
    requires
        is_first_set(flags, i),
    ensures
        first_set(flags) == Some(i),
{
    assert(flags[i] == true);
    assert(flags.contains(true));
    let first = choose|k: int| is_first_set(flags, k);
    assert(is_first_set(flags, first));
    assert(first == i);
}

/// What `first_set` finds is the first index at which `flags` holds `true`.
pub proof fn lemma_first_set_found(flags: Seq<bool>)
    ensures
        match first_set(flags) {
            Some(i) => is_first_set(flags, i),
            None => forall|j: int| 0 <= j < flags.len() ==> !flags[j],
        },
{
    if flags.contains(true) {
        let k = choose|k: int| 0 <= k < flags.len() && flags[k] == true;
        lemma_least_set(flags, k);
    }
}

/// Below an index at which `flags` holds `true` there is a first such index.
proof fn lemma_least_set(flags: Seq<bool>, k: int)
    requires
        0 <= k < flags.len(),
        flags[k],
    ensures
        exists|i: int| is_first_set(flags, i),
    decreases k,
{
    if exists|j: int| 0 <= j < k && flags[j] {
        let j = choose|j: int| 0 <= j < k && flags[j];
        lemma_least_set(flags, j);
    } else {
        assert(is_first_set(flags, k));
    }
}

/// Finds the first field annotated as the partition key.
pub fn find_partition_key(fields: &[ItemField]) -> (r: Option<usize>)
    ensures
        match r {
            Some(i) => i < fields@.len() && first_partition_key(views(fields@)) == Some(i as int),
            None => first_partition_key(views(fields@)) == None::<int>,
        },
{
    let ghost flags = partition_flags(views(fields@));
    let mut i: usize = 0;
    while i < fields.len()
        invariant
            i <= fields.len(),
            flags == partition_flags(views(fields@)),
            forall|j: int| 0 <= j < i ==> !flags[j],
        decreases fields.len() - i,
    {
        if fields[i].is_partition_key() {
            proof {
                lemma_first_set(flags, i as int);
            }
            return Some(i);
        }
        i = i + 1;
    }
    assert(!flags.contains(true));
    None
}

/// Finds the first field annotated as the sort key.
pub fn find_sort_key(fields: &[ItemField]) -> (r: Option<usize>)
    ensures
        match r {
            Some(i) => i < fields@.len() && first_sort_key(views(fields@)) == Some(i as int),
            None => first_sort_key(views(fields@)) == None::<int>,
        },
{
    let ghost flags = sort_flags(views(fields@));
    let mut i: usize = 0;
    while i < fields.len()
        invariant
            i <= fields.len(),
            flags == sort_flags(views(fields@)),
            forall|j: int| 0 <= j < i ==> !flags[j],
        decreases fields.len() - i,
    {
        if fields[i].is_sort_key() {
            proof {
                lemma_first_set(flags, i as int);
            }
            return Some(i);
        }
        i = i + 1;
    }
    assert(!flags.contains(true));
    None
}

/// Counts the fields annotated as the partition key.
pub fn count_partition_keys(fields: &[ItemField]) -> (n: usize)
    ensures
        n == partition_key_count(views(fields@)),
{
    let ghost flags = partition_flags(views(fields@));
    let mut n: usize = 0;
    let mut i: usize = 0;
    while i < fields.len()
        invariant
            i <= fields.len(),
            n <= i,
            flags == partition_flags(views(fields@)),
            n == count_set(flags.take(i as int)),
        decreases fields.len() - i,
    {
        if fields[i].is_partition_key() {
            n = n + 1;
        }
        i = i + 1;
        assert(flags.take(i as int).drop_last() =~= flags.take(i - 1));
    }
    assert(flags.take(i as int) =~= flags);
    n
}

/// The views of `fields`, in order.
pub open spec fn item_fields(fields: Seq<SpecField>) -> Seq<SpecItemField> {
    Seq::new(fields.len(), |i: int| SpecItemField::of(fields[i]))
}

/// Reads the annotations off each of `fields`.
pub fn collect_item_fields<'a>(fields: &'a [Field]) -> (r: Vec<ItemField<'a>>)
    ensures
        views(r@) == item_fields(views(fields@)),
{
    let mut out: Vec<ItemField<'a>> = Vec::new();
    let mut i: usize = 0;
    while i < fields.len()
        invariant
            i <= fields.len(),
            out@.len() == i,
            forall|j: int| 0 <= j < i ==> out@[j]@ == SpecItemField::of(#[trigger] fields@[j]@),
        decreases fields.len() - i,
    {
        out.push(ItemField::new(&fields[i]));
        i = i + 1;
    }
    assert(views(out@) =~= item_fields(views(fields@)));
    out
}

} // verus!
