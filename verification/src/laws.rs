//! Laws that relate the conversions to one another.

use vstd::prelude::*;
use crate::convert::{
    attrs_of, decoded, distinct_names, enum_attr, enum_parsed, fails_at, field_outcome,
    first_failure, is_first_case, key_map, lemma_first_failure, names, names_before, remaining,
    to_map,
};
use crate::decl::{SpecData, SpecField, SpecFields};
use crate::field::{
    first_partition_key, first_rename, first_sort_key, item_fields, lemma_count_set,
    lemma_first_set_found, partition_flags, partition_key_count, sort_flags, sort_key_count,
    SpecItemField,
};
use crate::attributes::{conversion_text, insert_text};
use crate::item::{item_text, key_declared, key_fields, key_inserter_text};
use crate::error::SpecExpandError;
use crate::text::{decimal, literal};
use crate::value::{Attribute, SpecAttributeError, SpecAttributeValue};

verus! {

/// An item with exactly one partition key and no sort key: deriving succeeds,
/// and the key type has exactly one field, the partition key, which is the
/// only field annotated so.
pub proof fn law_key_of_partition_key(vis: Seq<char>, name: Seq<char>, fields: Seq<SpecField>)
    requires
        partition_key_count(item_fields(fields)) == 1,
        sort_key_count(item_fields(fields)) == 0,
    ensures
        item_text(vis, name, fields) is Ok,
        ({
            &&& first_partition_key(item_fields(fields)) matches Some(p)
            &&& 0 <= p < fields.len()
            &&& key_declared(vis, name, item_fields(fields)) matches Some(key)
            &&& key.data == SpecData::Struct(SpecFields::Named(seq![fields[p]]))
            &&& forall|i: int|
                0 <= i < fields.len() && #[trigger] item_fields(fields)[i].is_partition_key() ==> i
                    == p
        }),
{
    let all = item_fields(fields);
    lemma_count_set(partition_flags(all));
    lemma_count_set(sort_flags(all));
    lemma_first_set_found(partition_flags(all));
    lemma_first_set_found(sort_flags(all));
    let p = first_partition_key(all)->Some_0;
    assert(key_fields(all) =~= seq![fields[p]]);
    assert forall|i: int|
        0 <= i < fields.len() && #[trigger] all[i].is_partition_key() implies i == p by {
        assert(partition_flags(all)[i] && partition_flags(all)[p]);
    }
}

/// An item with exactly one partition key and exactly one sort key: deriving
/// succeeds, and the key type has exactly two fields, first the partition
/// key and then the sort key, which are the only fields annotated so.
pub proof fn law_key_of_partition_and_sort_key(
    vis: Seq<char>,
    name: Seq<char>,
    fields: Seq<SpecField>,
)
    requires
        partition_key_count(item_fields(fields)) == 1,
        sort_key_count(item_fields(fields)) == 1,
    ensures
        item_text(vis, name, fields) is Ok,
        ({
            &&& first_partition_key(item_fields(fields)) matches Some(p)
            &&& first_sort_key(item_fields(fields)) matches Some(s)
            &&& 0 <= p < fields.len()
            &&& 0 <= s < fields.len()
            &&& key_declared(vis, name, item_fields(fields)) matches Some(key)
            &&& key.data == SpecData::Struct(SpecFields::Named(seq![fields[p], fields[s]]))
            &&& forall|i: int|
                0 <= i < fields.len() ==> (#[trigger] item_fields(fields)[i].is_partition_key()
                    ==> i == p) && (item_fields(fields)[i].is_sort_key() ==> i == s)
        }),
{
    let all = item_fields(fields);
    lemma_count_set(partition_flags(all));
    lemma_count_set(sort_flags(all));
    lemma_first_set_found(partition_flags(all));
    lemma_first_set_found(sort_flags(all));
    let p = first_partition_key(all)->Some_0;
    let s = first_sort_key(all)->Some_0;
    assert(key_fields(all) =~= seq![fields[p], fields[s]]);
    assert forall|i: int| 0 <= i < fields.len() implies (#[trigger] all[i].is_partition_key() ==> i
        == p) && (all[i].is_sort_key() ==> i == s) by {
        if all[i].is_partition_key() {
            assert(partition_flags(all)[i] && partition_flags(all)[p]);
        }
        if all[i].is_sort_key() {
            assert(sort_flags(all)[i] && sort_flags(all)[s]);
        }
    }
}

/// An item whose number of partition keys is not one, be it none or several:
/// deriving fails, with the error that carries the item's name and that
/// number.
pub proof fn law_partition_key_count(vis: Seq<char>, name: Seq<char>, fields: Seq<SpecField>)
    requires
        partition_key_count(item_fields(fields)) != 1,
    ensures
        item_text(vis, name, fields) == Err::<Seq<char>, SpecExpandError>(
            SpecExpandError::PartitionKeyCount {
                name,
                count: partition_key_count(item_fields(fields)),
            },
        ),
        item_text(vis, name, fields)->Err_0.message() == "All Item's must declare one and only one partition_key. The `"@
            + name + ("` Item declared "@ + decimal(partition_key_count(item_fields(fields)))),
{
}

/// With distinct names, the map of a record holds each field's value under
/// the field's name, and nothing under any other name.
pub proof fn lemma_to_map_lookup(fields: Seq<SpecItemField>, values: Seq<SpecAttributeValue>)
    requires
        values.len() == fields.len(),
        distinct_names(fields),
    ensures
        forall|i: int|
            0 <= i < fields.len() ==> to_map(fields, values).contains_key(
                #[trigger] names(fields)[i],
            ) && to_map(fields, values)[names(fields)[i]] == values[i],
        forall|name: Seq<char>| #[trigger]
            to_map(fields, values).contains_key(name) ==> names(fields).contains(name),
    decreases fields.len(),
{
    if fields.len() > 0 {
        let front = fields.drop_last();
        let front_values = values.drop_last();
        assert forall|i: int, j: int| 0 <= i < j < front.len() implies names(front)[i] != names(
            front,
        )[j] by {
            assert(names(fields)[i] != names(fields)[j]);
        }
        lemma_to_map_lookup(front, front_values);
        let last = fields.len() - 1;
        assert forall|i: int| 0 <= i < fields.len() implies to_map(fields, values).contains_key(
            #[trigger] names(fields)[i],
        ) && to_map(fields, values)[names(fields)[i]] == values[i] by {
            if i < last {
                assert(names(fields)[i] != names(fields)[last]);
                assert(names(front)[i] == names(fields)[i]);
            }
        }
        assert forall|name: Seq<char>| #[trigger]
            to_map(fields, values).contains_key(name) implies names(fields).contains(name) by {
            if name == fields.last().deser_name() {
                assert(names(fields)[last] == name);
            } else {
                assert(to_map(front, front_values).contains_key(name));
                let i = choose|i: int| 0 <= i < front.len() && names(front)[i] == name;
                assert(names(fields)[i] == name);
            }
        }
    }
}

/// A record that decodes holds, field by field, what each field decodes to.
pub proof fn lemma_decoded_fields<V: Attribute>(
    fields: Seq<SpecItemField>,
    attrs: Map<Seq<char>, SpecAttributeValue>,
)
    requires
        decoded::<V>(fields, attrs) is Ok,
    ensures
        decoded::<V>(fields, attrs)->Ok_0.len() == fields.len(),
        forall|i: int|
            0 <= i < fields.len() ==> #[trigger] field_outcome::<V>(fields, attrs, i) == Ok::<
                V::Model,
                SpecAttributeError,
            >(decoded::<V>(fields, attrs)->Ok_0[i]),
{
    assert forall|i: int| 0 <= i < fields.len() implies #[trigger] field_outcome::<V>(
        fields,
        attrs,
        i,
    ) == Ok::<V::Model, SpecAttributeError>(decoded::<V>(fields, attrs)->Ok_0[i]) by {
        assert(!fails_at::<V>(fields, attrs, i));
    }
}

/// Where every field decodes to the value at its place in `item`, the record
/// decodes to `item`.
pub proof fn lemma_decoded_from_fields<V: Attribute>(
    fields: Seq<SpecItemField>,
    attrs: Map<Seq<char>, SpecAttributeValue>,
    item: Seq<V::Model>,
)
    requires
        item.len() == fields.len(),
        forall|i: int|
            0 <= i < fields.len() ==> #[trigger] field_outcome::<V>(fields, attrs, i) == Ok::<
                V::Model,
                SpecAttributeError,
            >(item[i]),
    ensures
        decoded::<V>(fields, attrs) == Ok::<Seq<V::Model>, SpecAttributeError>(item),
{
    assert forall|i: int| !fails_at::<V>(fields, attrs, i) by {
        if 0 <= i < fields.len() {
            assert(field_outcome::<V>(fields, attrs, i) is Ok);
        }
    }
    assert(item =~= Seq::new(
        fields.len(),
        |i: int| field_outcome::<V>(fields, attrs, i)->Ok_0,
    ));
}

/// Round trip: a record whose fields are stored under distinct names, written
/// as an attribute map and read back, is the record it was.
pub proof fn law_round_trip<V: Attribute>(fields: Seq<SpecItemField>, item: Seq<V::Model>)
    requires
        item.len() == fields.len(),
        distinct_names(fields),
    ensures
        decoded::<V>(fields, to_map(fields, attrs_of::<V>(item))) == Ok::<
            Seq<V::Model>,
            SpecAttributeError,
        >(item),
{
    let values = attrs_of::<V>(item);
    let map = to_map(fields, values);
    lemma_to_map_lookup(fields, values);
    assert forall|i: int| 0 <= i < fields.len() implies #[trigger] field_outcome::<V>(
        fields,
        map,
        i,
    ) == Ok::<V::Model, SpecAttributeError>(item[i]) by {
        let name = fields[i].deser_name();
        assert(names(fields)[i] == name);
        assert(!names_before(fields, i).contains(name)) by {
            if names_before(fields, i).contains(name) {
                let j = choose|j: int|
                    0 <= j < i && j < fields.len() && #[trigger] names(fields)[j] == name;
                assert(names(fields)[j] != names(fields)[i]);
            }
        }
        assert(remaining(fields, map, i).contains_key(name));
        assert(remaining(fields, map, i)[name] == V::attr(item[i]));
        V::round_trip(item[i]);
    }
    lemma_decoded_from_fields::<V>(fields, map, item);
}

/// Default when absent: take the attribute of a field annotated as default
/// out of a map that decodes, and the map still decodes, to the same record
/// but for the type's default value at that field. No field before it may
/// store its attribute under the same name.
pub proof fn law_default_when_absent<V: Attribute>(
    fields: Seq<SpecItemField>,
    attrs: Map<Seq<char>, SpecAttributeValue>,
    k: int,
)
    requires
        0 <= k < fields.len(),
        fields[k].is_default_when_absent(),
        forall|i: int| 0 <= i < k ==> names(fields)[i] != names(fields)[k],
        decoded::<V>(fields, attrs) is Ok,
    ensures
        decoded::<V>(fields, attrs.remove(fields[k].deser_name())) == Ok::<
            Seq<V::Model>,
            SpecAttributeError,
        >(decoded::<V>(fields, attrs)->Ok_0.update(k, V::absent())),
{
    let gone = fields[k].deser_name();
    let less = attrs.remove(gone);
    let item = decoded::<V>(fields, attrs)->Ok_0;
    let expected = item.update(k, V::absent());
    lemma_decoded_fields::<V>(fields, attrs);
    assert(names(fields)[k] == gone);
    assert forall|i: int| 0 <= i < fields.len() implies #[trigger] field_outcome::<V>(
        fields,
        less,
        i,
    ) == Ok::<V::Model, SpecAttributeError>(expected[i]) by {
        let name = fields[i].deser_name();
        assert(names(fields)[i] == name);
        assert(field_outcome::<V>(fields, attrs, i) == Ok::<V::Model, SpecAttributeError>(
            item[i],
        ));
        if name == gone {
            assert(!remaining(fields, less, i).contains_key(name));
            if i > k {
                assert(names_before(fields, i).contains(name));
                assert(!remaining(fields, attrs, i).contains_key(name));
            }
        } else {
            assert(remaining(fields, less, i).contains_key(name) == remaining(
                fields,
                attrs,
                i,
            ).contains_key(name));
        }
    }
    lemma_decoded_from_fields::<V>(fields, less, expected);
}

/// Missing field: take the attribute of a field not annotated as default out
/// of a map that decodes, and decoding fails with a missing-field error that
/// carries the name under which the field is stored.
pub proof fn law_missing_field<V: Attribute>(
    fields: Seq<SpecItemField>,
    attrs: Map<Seq<char>, SpecAttributeValue>,
    k: int,
)
    requires
        0 <= k < fields.len(),
        !fields[k].is_default_when_absent(),
        decoded::<V>(fields, attrs) is Ok,
    ensures
        decoded::<V>(fields, attrs.remove(fields[k].deser_name())) == Err::<
            Seq<V::Model>,
            SpecAttributeError,
        >(SpecAttributeError::MissingField { name: fields[k].deser_name() }),
{
    let gone = fields[k].deser_name();
    let less = attrs.remove(gone);
    lemma_decoded_fields::<V>(fields, attrs);
    assert(names(fields)[k] == gone);
    assert(field_outcome::<V>(fields, attrs, k) is Ok);
    assert(remaining(fields, attrs, k).contains_key(gone));
    assert(!names_before(fields, k).contains(gone));
    assert forall|i: int| 0 <= i < k implies !fails_at::<V>(fields, less, i) by {
        let name = fields[i].deser_name();
        assert(names(fields)[i] == name);
        assert(name != gone);
        assert(field_outcome::<V>(fields, attrs, i) is Ok);
        assert(remaining(fields, less, i).contains_key(name) == remaining(
            fields,
            attrs,
            i,
        ).contains_key(name));
    }
    assert(!remaining(fields, less, k).contains_key(gone));
    assert(first_failure::<V>(fields, less, k));
    lemma_first_failure::<V>(fields, less, k);
}

/// Enum mapping: with no two cases of the same name, what a case is written
/// as is read back as that case; a string that is no case's name is a format
/// error; a value that is no string is a type error.
pub proof fn law_enum_mapping(variants: Seq<Seq<char>>, case: int, value: SpecAttributeValue)
    requires
        forall|i: int, j: int| 0 <= i < j < variants.len() ==> variants[i] != variants[j],
    ensures
        0 <= case < variants.len() ==> enum_parsed(variants, enum_attr(variants, case)) == Ok::<
            int,
            SpecAttributeError,
        >(case),
        value matches SpecAttributeValue::S(name) && !variants.contains(name) ==> enum_parsed(
            variants,
            value,
        ) == Err::<int, SpecAttributeError>(SpecAttributeError::InvalidFormat),
        !(value is S) ==> enum_parsed(variants, value) == Err::<int, SpecAttributeError>(
            SpecAttributeError::InvalidType,
        ),
{
    if 0 <= case < variants.len() {
        let name = variants[case];
        assert(is_first_case(variants, name, case)) by {
            assert forall|j: int| 0 <= j < case implies variants[j] != name by {
                assert(variants[j] != variants[case]);
            }
        }
        let first = choose|i: int| is_first_case(variants, name, i);
        assert(is_first_case(variants, name, first));
        assert(first == case);
    }
}

/// Rename propagation: a field renamed to `name` is stored under `name` on
/// every path. Writing the record inserts an attribute called `name`;
/// reading it looks for `name` in what the fields before have left, and
/// reports `name` where it is missing; and where the field is the first
/// partition key or the first sort key, the key map holds `name`. The
/// emitted statements carry the literal of `name` in the same places.
pub proof fn law_rename_propagation<V: Attribute>(
    fields: Seq<SpecItemField>,
    k: int,
    name: Seq<char>,
    values: Seq<SpecAttributeValue>,
    attrs: Map<Seq<char>, SpecAttributeValue>,
    partition: SpecAttributeValue,
    sort: SpecAttributeValue,
)
    requires
        0 <= k < fields.len(),
        values.len() == fields.len(),
        first_rename(fields[k].attrs) == Some(name),
    ensures
        fields[k].deser_name() == name,
        to_map(fields, values).contains_key(name),
        field_outcome::<V>(fields, attrs, k) == if remaining(fields, attrs, k).contains_key(name) {
            V::parsed(remaining(fields, attrs, k)[name])
        } else if fields[k].is_default_when_absent() {
            Ok::<V::Model, SpecAttributeError>(V::absent())
        } else {
            Err::<V::Model, SpecAttributeError>(SpecAttributeError::MissingField { name })
        },
        first_partition_key(fields) == Some(k) || first_sort_key(fields) == Some(k) ==> key_map(
            fields,
            partition,
            sort,
        ).contains_key(name),
        insert_text(fields[k]) == "values.insert("@ + literal(name)
            + ".to_string(), ::dynomite::Attribute::into_attr(item."@ + fields[k].field.ident
            + ")); "@,
        key_inserter_text(fields[k]) == "keys.insert("@ + literal(name)
            + ".to_string(), ::dynomite::Attribute::into_attr(self."@ + fields[k].field.ident
            + ".clone()));"@,
        conversion_text(fields[k]) == if fields[k].is_default_when_absent() {
            Seq::empty() + fields[k].field.ident + ": match attrs.remove("@ + literal(name)
                + ") { Some(field) => ::dynomite::Attribute::from_attr(field)?, _ => ::std::default::Default::default() }"@
        } else {
            Seq::empty() + fields[k].field.ident
                + ": ::dynomite::Attribute::from_attr(attrs.remove("@ + literal(name)
                + ").ok_or(::dynomite::AttributeError::MissingField { name: "@ + literal(name)
                + ".to_string() })?)?"@
        },
{
    lemma_to_map_names(fields, values, k);
}

/// The map of a record holds an attribute under each field's name.
pub proof fn lemma_to_map_names(fields: Seq<SpecItemField>, values: Seq<SpecAttributeValue>, k: int)
    requires
        0 <= k < fields.len(),
        values.len() == fields.len(),
    ensures
        to_map(fields, values).contains_key(fields[k].deser_name()),
    decreases fields.len(),
{
    if k < fields.len() - 1 {
        lemma_to_map_names(fields.drop_last(), values.drop_last(), k);
    }
}

} // verus!
