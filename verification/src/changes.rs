//! What the comparison of two JSON values yields, as a function of their
//! models.
//!
//! Two arrays are matched by the `id` fields of their elements where either
//! has an element with one, and position by position where neither has. Two
//! objects are matched field by field. Any other pair yields one record where
//! the two values are not equal.

use crate::json::{json_eq, key_index, string_field, Field, Json};
use crate::models::{ConfigDiff, DiffRecord};
use crate::render::{null_text, rendered};
use crate::text::decimal;
use vstd::prelude::*;

verus! {

pub open spec fn root_text() -> Seq<char> {
    seq!['r', 'o', 'o', 't']
}

/// The path under which a difference at `path` is reported: the top of the
/// compared values is called `root`.
pub open spec fn record_path(path: Seq<char>) -> Seq<char> {
    if path.len() == 0 {
        root_text()
    } else {
        path
    }
}

/// The path of the field `key` of the object at `path`.
pub open spec fn field_path(path: Seq<char>, key: Seq<char>) -> Seq<char> {
    if path.len() == 0 {
        key
    } else {
        path + seq!['.'] + key
    }
}

/// The path of the element with identity `id` in the array at `path`.
pub open spec fn id_path(path: Seq<char>, id: Seq<char>) -> Seq<char> {
    if path.len() == 0 {
        seq!['i', 'd', ':'] + id
    } else {
        path + seq!['.', 'i', 'd', ':'] + id
    }
}

/// The path of the element at position `i` of the array at `path`.
pub open spec fn index_path(path: Seq<char>, i: int) -> Seq<char> {
    path + seq!['['] + decimal(i as nat) + seq![']']
}

/// The record of a value that differs between the two sides.
pub open spec fn changed(key: Seq<char>, a: Json, b: Json) -> DiffRecord {
    DiffRecord { key, source_value: rendered(a), dest_value: rendered(b) }
}

/// The record of a value that only the source has.
pub open spec fn removed(key: Seq<char>, a: Json) -> DiffRecord {
    DiffRecord { key, source_value: rendered(a), dest_value: null_text() }
}

/// The record of a value that only the destination has.
pub open spec fn added(key: Seq<char>, b: Json) -> DiffRecord {
    DiffRecord { key, source_value: null_text(), dest_value: rendered(b) }
}

pub open spec fn id_key() -> Seq<char> {
    seq!['i', 'd']
}

/// The identity of an array element: the text of its `id` field, where it is
/// an object with such a field that holds a string.
pub open spec fn id_of(v: Json) -> Option<Seq<char>> {
    string_field(v, id_key())
}

/// One entry of an identity map: an identity, and the position of the element
/// that it stands for.
pub struct IdEntry {
    pub id: Seq<char>,
    pub index: int,
}

/// The element at `i` has an identity and is the last one with it.
pub open spec fn is_id_entry(items: Seq<Json>, i: int) -> bool {
    &&& 0 <= i < items.len()
    &&& id_of(items[i]) is Some
    &&& forall|j: int| i < j < items.len() ==> id_of(#[trigger] items[j]) != id_of(items[i])
}

/// The entries of the identity map for the first `n` positions.
pub open spec fn id_map_upto(items: Seq<Json>, n: nat) -> Seq<IdEntry>
    decreases n,
{
    if n == 0 {
        Seq::empty()
    } else if is_id_entry(items, n - 1) {
        id_map_upto(items, (n - 1) as nat).push(
            IdEntry { id: id_of(items[n - 1])->Some_0, index: n - 1 },
        )
    } else {
        id_map_upto(items, (n - 1) as nat)
    }
}

/// The identity map of an array: one entry for each identity that occurs,
/// standing for the last element with it, in the order of those elements. It
/// is empty where no element has an identity.
pub open spec fn id_map(items: Seq<Json>) -> Seq<IdEntry> {
    id_map_upto(items, items.len())
}

/// The place in `map` of the first entry for `id`, or `-1` where there is
/// none.
pub open spec fn entry_position(map: Seq<IdEntry>, id: Seq<char>) -> int
    decreases map.len(),
{
    if map.len() == 0 {
        -1
    } else {
        let k = entry_position(map.drop_last(), id);
        if k >= 0 {
            k
        } else if map.last().id == id {
            map.len() - 1
        } else {
            -1
        }
    }
}

/// The place that `entry_position` gives is that of the first entry for the
/// identity.
pub proof fn lemma_entry_position(map: Seq<IdEntry>, id: Seq<char>)
    ensures
        -1 <= entry_position(map, id) < map.len(),
        entry_position(map, id) >= 0 ==> map[entry_position(map, id)].id == id,
        forall|j: int|
            0 <= j < map.len() && (#[trigger] map[j]).id == id ==> 0 <= entry_position(map, id) <= j,
    decreases map.len(),
{
    if map.len() > 0 {
        lemma_entry_position(map.drop_last(), id);
        let k = entry_position(map.drop_last(), id);
        assert forall|j: int| 0 <= j < map.len() && (#[trigger] map[j]).id == id implies 0
            <= entry_position(map, id) <= j by {
            if j < map.len() - 1 {
                assert(map.drop_last()[j] == map[j]);
            }
        }
        if k >= 0 {
            assert(map.drop_last()[k] == map[k]);
        }
    }
}

/// The records for the comparison of `a` with `b` at `path`.
pub open spec fn value_changes(path: Seq<char>, a: Json, b: Json) -> Seq<DiffRecord>
    decreases a, 0nat, 0nat,
{
    match a {
        Json::Array(xs) if b is Array => array_changes(path, xs, b->Array_0),
        Json::Object(fs) if b is Object => object_changes(path, fs, b->Object_0),
        _ => if json_eq(a, b) {
            Seq::empty()
        } else {
            seq![changed(record_path(path), a, b)]
        },
    }
}

/// The records for two arrays: by identity where either has an identity map,
/// by position where neither has.
pub open spec fn array_changes(path: Seq<char>, xs: Seq<Json>, ys: Seq<Json>) -> Seq<DiffRecord>
    decreases xs, 2nat, 0nat,
{
    if id_map(xs).len() > 0 || id_map(ys).len() > 0 {
        id_changes_source(path, xs, ys, id_map(xs), id_map(ys), id_map(xs).len())
            + id_changes_dest(path, ys, id_map(xs), id_map(ys), id_map(ys).len())
    } else {
        index_changes(path, xs, ys, if xs.len() >= ys.len() { xs.len() } else { ys.len() })
    }
}

/// The records for the first `n` entries of the source's identity map: the
/// comparison of the two elements where the destination has the identity too,
/// a removal where it has not.
pub open spec fn id_changes_source(
    path: Seq<char>,
    xs: Seq<Json>,
    ys: Seq<Json>,
    source_map: Seq<IdEntry>,
    dest_map: Seq<IdEntry>,
    n: nat,
) -> Seq<DiffRecord>
    decreases xs, 1nat, n,
{
    if n == 0 || n > source_map.len() {
        Seq::empty()
    } else {
        let earlier = id_changes_source(path, xs, ys, source_map, dest_map, (n - 1) as nat);
        let entry = source_map[n - 1];
        let k = entry_position(dest_map, entry.id);
        if !(0 <= entry.index < xs.len()) {
            earlier
        } else if k >= 0 {
            earlier + value_changes(id_path(path, entry.id), xs[entry.index], ys[dest_map[k].index])
        } else {
            earlier.push(removed(id_path(path, entry.id), xs[entry.index]))
        }
    }
}

/// The records for the first `n` entries of the destination's identity map:
/// an addition for each identity that the source has not.
pub open spec fn id_changes_dest(
    path: Seq<char>,
    ys: Seq<Json>,
    source_map: Seq<IdEntry>,
    dest_map: Seq<IdEntry>,
    n: nat,
) -> Seq<DiffRecord>
    decreases n,
{
    if n == 0 || n > dest_map.len() {
        Seq::empty()
    } else {
        let earlier = id_changes_dest(path, ys, source_map, dest_map, (n - 1) as nat);
        let entry = dest_map[n - 1];
        if entry_position(source_map, entry.id) < 0 {
            earlier.push(added(id_path(path, entry.id), ys[entry.index]))
        } else {
            earlier
        }
    }
}

/// The records for the first `n` positions of two arrays without identities.
/// Two objects at one position are reported whole where they are not equal.
pub open spec fn index_changes(path: Seq<char>, xs: Seq<Json>, ys: Seq<Json>, n: nat) -> Seq<
    DiffRecord,
>
    decreases xs, 1nat, n,
{
    if n == 0 {
        Seq::empty()
    } else {
        let earlier = index_changes(path, xs, ys, (n - 1) as nat);
        let i = n - 1;
        let here = index_path(path, i);
        if i < xs.len() && i < ys.len() {
            if xs[i] is Object && ys[i] is Object {
                if json_eq(xs[i], ys[i]) {
                    earlier
                } else {
                    earlier.push(changed(here, xs[i], ys[i]))
                }
            } else {
                earlier + value_changes(here, xs[i], ys[i])
            }
        } else if i < xs.len() {
            earlier.push(removed(here, xs[i]))
        } else if i < ys.len() {
            earlier.push(added(here, ys[i]))
        } else {
            earlier
        }
    }
}

/// The records for two objects: first the fields of the source, then the
/// fields that only the destination has.
pub open spec fn object_changes(path: Seq<char>, fs: Seq<Field>, gs: Seq<Field>) -> Seq<DiffRecord>
    decreases fs, 2nat, 0nat,
{
    field_changes_source(path, fs, gs, fs.len()) + field_changes_dest(path, fs, gs, gs.len())
}

/// The records for the first `n` fields of the source: the comparison of the
/// two values where the destination has the key too, a removal where it has
/// not.
pub open spec fn field_changes_source(path: Seq<char>, fs: Seq<Field>, gs: Seq<Field>, n: nat) -> Seq<
    DiffRecord,
>
    decreases fs, 1nat, n,
{
    if n == 0 || n > fs.len() {
        Seq::empty()
    } else {
        let earlier = field_changes_source(path, fs, gs, (n - 1) as nat);
        let field = fs[n - 1];
        let k = key_index(gs, field.key);
        if k >= 0 {
            earlier + value_changes(field_path(path, field.key), field.value, gs[k].value)
        } else {
            earlier.push(removed(field_path(path, field.key), field.value))
        }
    }
}

/// The records for the first `n` fields of the destination: an addition for
/// each key that the source has not.
pub open spec fn field_changes_dest(path: Seq<char>, fs: Seq<Field>, gs: Seq<Field>, n: nat) -> Seq<
    DiffRecord,
>
    decreases n,
{
    if n == 0 || n > gs.len() {
        Seq::empty()
    } else {
        let earlier = field_changes_dest(path, fs, gs, (n - 1) as nat);
        let field = gs[n - 1];
        if key_index(fs, field.key) < 0 {
            earlier.push(added(field_path(path, field.key), field.value))
        } else {
            earlier
        }
    }
}

/// The category whose arrays are filtered before they are compared.
pub open spec fn secrets_category() -> Seq<char> {
    seq!['S', 'e', 'c', 'r', 'e', 't', 's']
}

pub open spec fn name_key() -> Seq<char> {
    seq!['n', 'a', 'm', 'e']
}

/// The prefix of the names that the platform keeps for itself.
pub open spec fn reserved_prefix() -> Seq<char> {
    seq!['S', 'U', 'P', 'A', 'B', 'A', 'S', 'E', '_']
}

/// An object whose `name` field holds a string that starts with the reserved
/// prefix.
pub open spec fn is_reserved_secret(v: Json) -> bool {
    match string_field(v, name_key()) {
        Some(name) => reserved_prefix().is_prefix_of(name),
        None => false,
    }
}

/// The elements of `items` that are no reserved secrets, in order.
pub open spec fn without_reserved(items: Seq<Json>) -> Seq<Json> {
    items.filter(|v: Json| !is_reserved_secret(v))
}

/// The records for two values of one category. In the secrets category two
/// arrays are compared without their reserved secrets.
pub open spec fn category_changes(category: Seq<char>, a: Json, b: Json) -> Seq<DiffRecord> {
    if category == secrets_category() && a is Array && b is Array {
        value_changes(
            Seq::empty(),
            Json::Array(without_reserved(a->Array_0)),
            Json::Array(without_reserved(b->Array_0)),
        )
    } else {
        value_changes(Seq::empty(), a, b)
    }
}

/// The result for two values of one category: nothing where no record is
/// found, the records under the category's name otherwise.
pub open spec fn category_diff(category: Seq<char>, a: Json, b: Json) -> Option<ConfigDiff> {
    if category_changes(category, a, b).len() == 0 {
        None
    } else {
        Some(ConfigDiff { name: category, diffs: category_changes(category, a, b) })
    }
}

} // verus!
