//! What the derived conversions compute, on records given as the values of
//! their fields in declaration order.

use vstd::prelude::*;
use crate::decl::{views, Variant};
use crate::field::{
    find_partition_key, find_sort_key, first_partition_key, first_sort_key, ItemField,
    SpecItemField,
};
use crate::value::{
    models, Attribute, AttributeError, AttributeValue, Attributes, SpecAttributeError,
    SpecAttributeValue,
};

verus! {

/// What the case at `case` is written as: a string with the case's name.
pub open spec fn enum_attr(variants: Seq<Seq<char>>, case: int) -> SpecAttributeValue {
    SpecAttributeValue::S(variants[case])
}

/// Whether `i` is the first case called `name`.
pub open spec fn is_first_case(variants: Seq<Seq<char>>, name: Seq<char>, i: int) -> bool {
    &&& 0 <= i < variants.len()
    &&& variants[i] == name
    &&& forall|j: int| 0 <= j < i ==> variants[j] != name
}

/// The case that `value` is read as: for a string, the first case of that
/// very name, and a format error where there is none; for any other kind of
/// value, a type error.
pub open spec fn enum_parsed(variants: Seq<Seq<char>>, value: SpecAttributeValue) -> Result<
    int,
    SpecAttributeError,
> {
    match value {
        SpecAttributeValue::S(name) => if variants.contains(name) {
            Ok(choose|i: int| is_first_case(variants, name, i))
        } else {
            Err(SpecAttributeError::InvalidFormat)
        },
        _ => Err(SpecAttributeError::InvalidType),
    }
}

/// Writes the case at `case` as an attribute value.
pub fn enum_into_attr(variants: &[Variant], case: usize) -> (r: AttributeValue)
    requires
        case < variants@.len(),
    ensures
        r@ == enum_attr(views(variants@), case as int),
{
    AttributeValue::S(variants[case].ident.clone())
}

/// Reads an attribute value as a case, given by its index.
pub fn enum_from_attr(variants: &[Variant], value: AttributeValue) -> (r: Result<
    usize,
    AttributeError,
>)
    ensures
        match r {
            Ok(case) => enum_parsed(views(variants@), value@) == Ok::<int, SpecAttributeError>(
                case as int,
            ),
            Err(e) => enum_parsed(views(variants@), value@) == Err::<int, SpecAttributeError>(e@),
        },
{
    match value {
        AttributeValue::S(name) => {
            let ghost all = views(variants@);
            let mut i: usize = 0;
            while i < variants.len()
                invariant
                    i <= variants.len(),
                    all == views(variants@),
                    value@ == SpecAttributeValue::S(name@),
                    forall|j: int| 0 <= j < i ==> all[j] != name@,
                decreases variants.len() - i,
            {
                if variants[i].ident == name {
                    proof {
                        assert(all[i as int] == name@);
                        assert(is_first_case(all, name@, i as int));
                        let first = choose|k: int| is_first_case(all, name@, k);
                        assert(is_first_case(all, name@, first));
                        assert(first == i);
                    }
                    return Ok(i);
                }
                i = i + 1;
            }
            assert(!all.contains(name@));
            Err(AttributeError::InvalidFormat)
        },
        _ => Err(AttributeError::InvalidType),
    }
}

/// The names under which the attributes of `fields` are stored.
pub open spec fn names(fields: Seq<SpecItemField>) -> Seq<Seq<char>> {
    Seq::new(fields.len(), |i: int| fields[i].deser_name())
}

/// Whether no two of `fields` store their attribute under the same name.
pub open spec fn distinct_names(fields: Seq<SpecItemField>) -> bool {
    forall|i: int, j: int| 0 <= i < j < fields.len() ==> names(fields)[i] != names(fields)[j]
}

/// The values of a record, each written as an attribute value.
pub open spec fn attrs_of<V: Attribute>(item: Seq<V::Model>) -> Seq<SpecAttributeValue> {
    Seq::new(item.len(), |i: int| V::attr(item[i]))
}

/// The map that comes of inserting, field by field in declaration order, each
/// of `values` under the name of its field.
pub open spec fn to_map(fields: Seq<SpecItemField>, values: Seq<SpecAttributeValue>) -> Map<
    Seq<char>,
    SpecAttributeValue,
>
    decreases fields.len(),
{
    if fields.len() == 0 {
        Map::empty()
    } else {
        to_map(fields.drop_last(), values.drop_last()).insert(
            fields.last().deser_name(),
            values.last(),
        )
    }
}

/// Writes a record as an attribute map: each field's value, converted, under
/// the field's name.
pub fn into_attributes<V: Attribute>(fields: &[ItemField], item: Vec<V>) -> (r: Attributes)
    requires
        item@.len() == fields@.len(),
    ensures
        r@ == to_map(views(fields@), attrs_of::<V>(models(item@))),
{
    let ghost all = views(fields@);
    let ghost values = attrs_of::<V>(models(item@));
    let mut out = Attributes::new();
    let mut i: usize = 0;
    for value in it: item
        invariant
            i == it.index(),
            it.seq() == item@,
            item@.len() == fields@.len(),
            all == views(fields@),
            values == attrs_of::<V>(models(item@)),
            out@ == to_map(all.take(i as int), values.take(i as int)),
    {
        let name = fields[i].deser_name();
        out.insert(name, value.into_attr());
        i = i + 1;
        proof {
            assert(all.take(i as int).drop_last() =~= all.take(i - 1));
            assert(values.take(i as int).drop_last() =~= values.take(i - 1));
        }
    }
    assert(all.take(i as int) =~= all);
    assert(values.take(i as int) =~= values);
    out
}

/// The names under which the fields before `i` store their attributes.
pub open spec fn names_before(fields: Seq<SpecItemField>, i: int) -> Set<Seq<char>> {
    Set::new(
        |name: Seq<char>|
            exists|j: int| 0 <= j < i && j < fields.len() && #[trigger] names(fields)[j] == name,
    )
}

/// The map as the field at `i` finds it: `attrs` without what the fields
/// before it took out.
pub open spec fn remaining(
    fields: Seq<SpecItemField>,
    attrs: Map<Seq<char>, SpecAttributeValue>,
    i: int,
) -> Map<Seq<char>, SpecAttributeValue> {
    attrs.remove_keys(names_before(fields, i))
}

/// What the field at `i` decodes to: the attribute under its name, read by
/// the field's type; where the map holds none, the type's default if the
/// field is annotated so, else a missing-field error with the name.
pub open spec fn field_outcome<V: Attribute>(
    fields: Seq<SpecItemField>,
    attrs: Map<Seq<char>, SpecAttributeValue>,
    i: int,
) -> Result<V::Model, SpecAttributeError> {
    let name = fields[i].deser_name();
    let left = remaining(fields, attrs, i);
    if left.contains_key(name) {
        V::parsed(left[name])
    } else if fields[i].is_default_when_absent() {
        Ok(V::absent())
    } else {
        Err(SpecAttributeError::MissingField { name })
    }
}

/// Whether the field at `i` fails to decode.
pub open spec fn fails_at<V: Attribute>(
    fields: Seq<SpecItemField>,
    attrs: Map<Seq<char>, SpecAttributeValue>,
    i: int,
) -> bool {
    0 <= i < fields.len() && field_outcome::<V>(fields, attrs, i) is Err
}

/// Whether the field at `i` is the first that fails to decode.
pub open spec fn first_failure<V: Attribute>(
    fields: Seq<SpecItemField>,
    attrs: Map<Seq<char>, SpecAttributeValue>,
    i: int,
) -> bool {
    fails_at::<V>(fields, attrs, i) && forall|j: int| 0 <= j < i ==> !fails_at::<V>(fields, attrs, j)
}

/// The record that `attrs` decodes to: the values of all fields, or the
/// error of the first field, in declaration order, that fails.
pub open spec fn decoded<V: Attribute>(
    fields: Seq<SpecItemField>,
    attrs: Map<Seq<char>, SpecAttributeValue>,
) -> Result<Seq<V::Model>, SpecAttributeError> {
    if exists|i: int| fails_at::<V>(fields, attrs, i) {
        let i = choose|i: int| first_failure::<V>(fields, attrs, i);
        Err(field_outcome::<V>(fields, attrs, i)->Err_0)
    } else {
        Ok(Seq::new(fields.len(), |i: int| field_outcome::<V>(fields, attrs, i)->Ok_0))
    }
}

/// Where the field at `i` fails and none before it does, the record decodes
/// to that field's error.
pub proof fn lemma_first_failure<V: Attribute>(
    fields: Seq<SpecItemField>,
    attrs: Map<Seq<char>, SpecAttributeValue>,
    i: int,
)
    requires
        first_failure::<V>(fields, attrs, i),
    ensures
        decoded::<V>(fields, attrs) == Err::<Seq<V::Model>, SpecAttributeError>(
            field_outcome::<V>(fields, attrs, i)->Err_0,
        ),
{
    assert(fails_at::<V>(fields, attrs, i));
    let first = choose|k: int| first_failure::<V>(fields, attrs, k);
    assert(first_failure::<V>(fields, attrs, first));
    assert(first == i) by {
        if first < i {
            assert(!fails_at::<V>(fields, attrs, first));
        } else if i < first {
            assert(!fails_at::<V>(fields, attrs, i));
        }
    }
}

/// Taking the name of the field at `i` out of what it found leaves what the
/// next field finds.
pub proof fn lemma_remaining_step(
    fields: Seq<SpecItemField>,
    attrs: Map<Seq<char>, SpecAttributeValue>,
    i: int,
)
    requires
        0 <= i < fields.len(),
    ensures
        remaining(fields, attrs, i).remove(fields[i].deser_name()) == remaining(
            fields,
            attrs,
            i + 1,
        ),
{
    let name = fields[i].deser_name();
    assert(names(fields)[i] == name);
    assert forall|other: Seq<char>|
        names_before(fields, i + 1).contains(other) <==> (names_before(fields, i).contains(other)
            || other == name) by {
        if names_before(fields, i + 1).contains(other) {
            let j = choose|j: int|
                0 <= j < i + 1 && j < fields.len() && #[trigger] names(fields)[j] == other;
            if j < i {
                assert(names_before(fields, i).contains(other));
            }
        }
        if names_before(fields, i).contains(other) {
            let j = choose|j: int|
                0 <= j < i && j < fields.len() && #[trigger] names(fields)[j] == other;
            assert(names(fields)[j] == other);
        }
    }
    assert(remaining(fields, attrs, i).remove(name) =~= remaining(fields, attrs, i + 1));
}

/// Reads a record off an attribute map: field by field in declaration order,
/// each from the attribute under its name, which is taken out of the map.
/// The first field that fails ends the reading with its error.
pub fn from_attrs<V: Attribute>(fields: &[ItemField], attrs: Attributes) -> (r: Result<
    Vec<V>,
    AttributeError,
>)
    ensures
        match r {
            Ok(item) => decoded::<V>(views(fields@), attrs@) == Ok::<
                Seq<V::Model>,
                SpecAttributeError,
            >(models(item@)),
            Err(e) => decoded::<V>(views(fields@), attrs@) == Err::<
                Seq<V::Model>,
                SpecAttributeError,
            >(e@),
        },
{
    let ghost all = views(fields@);
    let ghost given = attrs@;
    let mut left = attrs;
    let mut item: Vec<V> = Vec::new();
    let mut i: usize = 0;
    assert(remaining(all, given, 0) =~= given);
    while i < fields.len()
        invariant
            i <= fields.len(),
            all == views(fields@),
            given == attrs@,
            left@ == remaining(all, given, i as int),
            item@.len() == i,
            forall|j: int|
                0 <= j < i ==> field_outcome::<V>(all, given, j) == Ok::<
                    V::Model,
                    SpecAttributeError,
                >(item@[j].model()),
        decreases fields.len() - i,
    {
        let name = fields[i].deser_name();
        proof {
            lemma_remaining_step(all, given, i as int);
        }
        let value = match left.remove(name.as_str()) {
            Some(found) => match V::from_attr(found) {
                Ok(value) => value,
                Err(e) => {
                    proof {
                        assert(first_failure::<V>(all, given, i as int));
                        lemma_first_failure::<V>(all, given, i as int);
                    }
                    return Err(e);
                },
            },
            None => {
                if fields[i].is_default_when_absent() {
                    V::default_value()
                } else {
                    proof {
                        assert(first_failure::<V>(all, given, i as int));
                        lemma_first_failure::<V>(all, given, i as int);
                    }
                    return Err(AttributeError::MissingField { name });
                }
            },
        };
        item.push(value);
        i = i + 1;
    }
    proof {
        assert(!exists|k: int| fails_at::<V>(all, given, k));
        assert(models(item@) =~= Seq::new(
            all.len(),
            |k: int| field_outcome::<V>(all, given, k)->Ok_0,
        ));
    }
    Ok(item)
}

/// Writes a record as one attribute value: a map value that holds the
/// record's attribute map.
pub fn record_into_attr<V: Attribute>(fields: &[ItemField], item: Vec<V>) -> (r: AttributeValue)
    requires
        item@.len() == fields@.len(),
    ensures
        r@ == SpecAttributeValue::M(to_map(views(fields@), attrs_of::<V>(models(item@)))),
{
    AttributeValue::M(into_attributes(fields, item))
}

/// The record that `value` is read as: what its map decodes to where it is a
/// map value, else a type error.
pub open spec fn record_parsed<V: Attribute>(
    fields: Seq<SpecItemField>,
    value: SpecAttributeValue,
) -> Result<Seq<V::Model>, SpecAttributeError> {
    match value {
        SpecAttributeValue::M(map) => decoded::<V>(fields, map),
        _ => Err(SpecAttributeError::InvalidType),
    }
}

/// Reads a record off one attribute value.
pub fn record_from_attr<V: Attribute>(fields: &[ItemField], value: AttributeValue) -> (r: Result<
    Vec<V>,
    AttributeError,
>)
    ensures
        match r {
            Ok(item) => record_parsed::<V>(views(fields@), value@) == Ok::<
                Seq<V::Model>,
                SpecAttributeError,
            >(models(item@)),
            Err(e) => record_parsed::<V>(views(fields@), value@) == Err::<
                Seq<V::Model>,
                SpecAttributeError,
            >(e@),
        },
{
    match value {
        AttributeValue::M(map) => from_attrs(fields, map),
        _ => Err(AttributeError::InvalidType),
    }
}

/// The key map of a record whose partition key is written as `partition`
/// and whose sort key, if it has one, as `sort`: the partition key under
/// its field's name, then the sort key under its field's.
pub open spec fn key_map(
    fields: Seq<SpecItemField>,
    partition: SpecAttributeValue,
    sort: SpecAttributeValue,
) -> Map<Seq<char>, SpecAttributeValue> {
    let only = Map::<Seq<char>, SpecAttributeValue>::empty().insert(
        fields[first_partition_key(fields)->Some_0].deser_name(),
        partition,
    );
    match first_sort_key(fields) {
        Some(s) => only.insert(fields[s].deser_name(), sort),
        None => only,
    }
}

/// Whether `map` is a key map of the record `item`: made of copies of the
/// values of its key fields.
pub open spec fn is_key_of<V: Attribute + Clone>(
    fields: Seq<SpecItemField>,
    item: Seq<V>,
    map: Map<Seq<char>, SpecAttributeValue>,
) -> bool {
    exists|partition: V, sort: V|
        {
            &&& cloned(item[first_partition_key(fields)->Some_0], partition)
            &&& first_sort_key(fields) matches Some(s) ==> cloned(item[s], sort)
            &&& map == #[trigger] key_map(
                fields,
                V::attr(partition.model()),
                V::attr(sort.model()),
            )
        }
}

/// Whether a copy of a value of the type has the model of that value.
pub open spec fn copies_keep_model<V: Attribute + Clone>() -> bool {
    forall|value: V, copy: V| #[trigger] cloned(value, copy) ==> value.model() == copy.model()
}

/// The key map of the record `item`: the value of its first partition key
/// under that field's name, then the value of its first sort key, if it has
/// one, under that field's name.
pub open spec fn key_of<V: Attribute>(fields: Seq<SpecItemField>, item: Seq<V::Model>) -> Map<
    Seq<char>,
    SpecAttributeValue,
> {
    key_map(
        fields,
        V::attr(item[first_partition_key(fields)->Some_0]),
        match first_sort_key(fields) {
            Some(s) => V::attr(item[s]),
            None => SpecAttributeValue::Null,
        },
    )
}

/// The key of a record: the attribute map of its key fields alone, each
/// value copied and then converted. There is none where no field is
/// annotated as the partition key.
pub fn key<V: Attribute + Clone>(fields: &[ItemField], item: &[V]) -> (r: Option<Attributes>)
    requires
        item@.len() == fields@.len(),
    ensures
        match r {
            Some(map) => {
                &&& first_partition_key(views(fields@)) is Some
                &&& is_key_of(views(fields@), item@, map@)
                &&& copies_keep_model::<V>() ==> map@ == key_of::<V>(
                    views(fields@),
                    models(item@),
                )
            },
            None => first_partition_key(views(fields@)) is None,
        },
{
    match find_partition_key(fields) {
        None => None,
        Some(p) => {
            let mut keys = Attributes::new();
            let partition = item[p].clone();
            let ghost partition_copy = partition;
            keys.insert(fields[p].deser_name(), partition.into_attr());
            match find_sort_key(fields) {
                Some(s) => {
                    let sort = item[s].clone();
                    let ghost sort_copy = sort;
                    keys.insert(fields[s].deser_name(), sort.into_attr());
                    assert(keys@ == key_map(
                        views(fields@),
                        V::attr(partition_copy.model()),
                        V::attr(sort_copy.model()),
                    ));
                    assert(cloned(item@[p as int], partition_copy));
                    assert(cloned(item@[s as int], sort_copy));
                    assert(copies_keep_model::<V>() ==> models(item@)[p as int]
                        == partition_copy.model() && models(item@)[s as int] == sort_copy.model());
                },
                None => {
                    assert(keys@ == key_map(
                        views(fields@),
                        V::attr(partition_copy.model()),
                        V::attr(partition_copy.model()),
                    ));
                    assert(cloned(item@[p as int], partition_copy));
                    assert(copies_keep_model::<V>() ==> models(item@)[p as int]
                        == partition_copy.model());
                },
            }
            Some(keys)
        },
    }
}

} // verus!
