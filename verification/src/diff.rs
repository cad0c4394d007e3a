//! The comparison of two JSON values, record by record.

use crate::changes::{
    added, array_changes, category_changes, category_diff, changed, entry_position, field_changes_dest,
    field_changes_source, field_path, id_changes_dest, id_changes_source, id_key, id_map,
    id_map_upto, id_of, id_path, index_changes, index_path, is_id_entry, is_reserved_secret,
    lemma_entry_position, name_key, object_changes, removed, reserved_prefix, root_text, secrets_category,
    value_changes, without_reserved, IdEntry,
};
use crate::json::{
    fields_view, find_key, get_string_field, items_view, lemma_view_array, lemma_view_object,
    values_equal, Json, JsonValue,
};
use crate::models::{records, DiffEntry, PreviewError, ProjectConfig};
use crate::render::{format_value, null_string};
use crate::text::{decimal_text, starts_with};
use vstd::prelude::*;
use vstd::string::*;

verus! {

/// The models of the entries of an identity map, in order.
pub open spec fn entries_view(entries: Seq<(String, usize)>) -> Seq<IdEntry> {
    Seq::new(entries.len(), |i: int| IdEntry { id: entries[i].0@, index: entries[i].1 as int })
}

/// Every entry of `map` points into an array of `len` elements.
pub open spec fn entries_within(map: Seq<IdEntry>, len: nat) -> bool {
    forall|k: int| 0 <= k < map.len() ==> 0 <= (#[trigger] map[k]).index < len
}

fn id_name() -> (s: String)
    ensures
        s@ == id_key(),
{
    proof {
        reveal_strlit("id");
        assert("id"@ =~= id_key());
    }
    String::from_str("id")
}

/// The path of a field below `path`.
pub fn field_path_text(path: &str, key: &str) -> (r: String)
    ensures
        r@ == field_path(path@, key@),
{
    if path.is_empty() {
        String::from_str(key)
    } else {
        proof {
            reveal_strlit(".");
            assert("."@ =~= seq!['.']);
        }
        String::from_str(path).concat(".").concat(key)
    }
}

/// The path of the element with identity `id` below `path`.
pub fn id_path_text(path: &str, id: &str) -> (r: String)
    ensures
        r@ == id_path(path@, id@),
{
    proof {
        reveal_strlit("id:");
        reveal_strlit(".id:");
        assert("id:"@ =~= seq!['i', 'd', ':']);
        assert(".id:"@ =~= seq!['.', 'i', 'd', ':']);
    }
    if path.is_empty() {
        String::from_str("id:").concat(id)
    } else {
        String::from_str(path).concat(".id:").concat(id)
    }
}

/// The path of the element at position `i` below `path`.
pub fn index_path_text(path: &str, i: usize) -> (r: String)
    ensures
        r@ == index_path(path@, i as int),
{
    proof {
        reveal_strlit("[");
        reveal_strlit("]");
        assert("["@ =~= seq!['[']);
        assert("]"@ =~= seq![']']);
    }
    let digits = decimal_text(i as u64);
    String::from_str(path).concat("[").concat(digits.as_str()).concat("]")
}

/// Whether `value` is an object whose `name` holds a string with the reserved
/// prefix.
pub fn is_supabase_secret(value: &JsonValue) -> (r: bool)
    ensures
        r == is_reserved_secret(value@),
{
    proof {
        reveal_strlit("name");
        reveal_strlit("SUPABASE_");
        assert("name"@ =~= name_key());
        assert("SUPABASE_"@ =~= reserved_prefix());
    }
    let name_name = String::from_str("name");
    match get_string_field(value, &name_name) {
        Some(name) => starts_with(name.as_str(), "SUPABASE_"),
        None => false,
    }
}

fn has_later_id(arr: &Vec<JsonValue>, i: usize, id: &String, id_name: &String) -> (r: bool)
    requires
        i < arr.len(),
        id_name@ == id_key(),
    ensures
        r == !(forall|j: int|
            i < j < arr.len() ==> id_of(#[trigger] items_view(arr@)[j]) != Some(id@)),
{
    let ghost items = items_view(arr@);
    let mut j: usize = i + 1;
    while j < arr.len()
        invariant
            i < j <= arr.len(),
            items == items_view(arr@),
            id_name@ == id_key(),
            forall|k: int| i < k < j ==> id_of(#[trigger] items[k]) != Some(id@),
        decreases arr.len() - j,
    {
        match get_string_field(&arr[j], id_name) {
            Some(other) => {
                if *other == *id {
                    assert(id_of(items[j as int]) == Some(id@));
                    return true;
                }
            },
            None => {},
        }
        j += 1;
    }
    false
}

/// Builds the identity map of an array, or nothing where no element has an
/// identity.
pub fn to_id_map(arr: &Vec<JsonValue>) -> (r: Option<Vec<(String, usize)>>)
    ensures
        match r {
            Some(map) => map@.len() > 0 && entries_view(map@) == id_map(items_view(arr@))
                && entries_within(entries_view(map@), arr@.len()),
            None => id_map(items_view(arr@)).len() == 0,
        },
{
    let id_name = id_name();
    let ghost items = items_view(arr@);
    let mut map: Vec<(String, usize)> = Vec::new();
    let mut i: usize = 0;
    while i < arr.len()
        invariant
            i <= arr.len(),
            items == items_view(arr@),
            id_name@ == id_key(),
            entries_view(map@) == id_map_upto(items, i as nat),
            entries_within(entries_view(map@), arr@.len()),
        decreases arr.len() - i,
    {
        let ghost before = entries_view(map@);
        match get_string_field(&arr[i], &id_name) {
            Some(id) => {
                if has_later_id(arr, i, id, &id_name) {
                    assert(!is_id_entry(items, i as int));
                } else {
                    assert(is_id_entry(items, i as int));
                    map.push((id.clone(), i));
                    assert(entries_view(map@) =~= before.push(
                        IdEntry { id: id@, index: i as int },
                    ));
                }
            },
            None => {
                assert(!is_id_entry(items, i as int));
            },
        }
        i += 1;
    }
    if map.len() > 0 {
        Some(map)
    } else {
        None
    }
}

fn find_entry(map: &Vec<(String, usize)>, id: &String) -> (r: Option<usize>)
    ensures
        match r {
            Some(k) => k < map.len() && entry_position(entries_view(map@), id@) == k,
            None => entry_position(entries_view(map@), id@) == -1,
        },
{
    let ghost model = entries_view(map@);
    let mut i: usize = 0;
    while i < map.len()
        invariant
            i <= map.len(),
            model == entries_view(map@),
            forall|j: int| 0 <= j < i ==> (#[trigger] model[j]).id != id@,
        decreases map.len() - i,
    {
        if map[i].0 == *id {
            proof {
                lemma_entry_position(model, id@);
                assert(model[i as int].id == id@);
            }
            return Some(i);
        }
        i += 1;
    }
    proof {
        lemma_entry_position(model, id@);
    }
    None
}

fn push_changed(diffs: &mut Vec<DiffEntry>, key: String, source: &JsonValue, dest: &JsonValue)
    ensures
        records(final(diffs)@) == records(old(diffs)@).push(changed(key@, source@, dest@)),
{
    let entry = DiffEntry { key, source_value: format_value(source), dest_value: format_value(dest) };
    diffs.push(entry);
    assert(records(diffs@) =~= records(old(diffs)@).push(changed(key@, source@, dest@)));
}

fn push_removed(diffs: &mut Vec<DiffEntry>, key: String, source: &JsonValue)
    ensures
        records(final(diffs)@) == records(old(diffs)@).push(removed(key@, source@)),
{
    let entry = DiffEntry { key, source_value: format_value(source), dest_value: null_string() };
    diffs.push(entry);
    assert(records(diffs@) =~= records(old(diffs)@).push(removed(key@, source@)));
}

fn push_added(diffs: &mut Vec<DiffEntry>, key: String, dest: &JsonValue)
    ensures
        records(final(diffs)@) == records(old(diffs)@).push(added(key@, dest@)),
{
    let entry = DiffEntry { key, source_value: null_string(), dest_value: format_value(dest) };
    diffs.push(entry);
    assert(records(diffs@) =~= records(old(diffs)@).push(added(key@, dest@)));
}

/// Compares `source` with `dest` at `path` and appends the records to `diffs`.
pub fn diff_values(path: &str, source: &JsonValue, dest: &JsonValue, diffs: &mut Vec<DiffEntry>)
    ensures
        records(final(diffs)@) == records(old(diffs)@) + value_changes(path@, source@, dest@),
    decreases source, 0nat,
{
    match source {
        JsonValue::Array(src) => {
            if let JsonValue::Array(dst) = dest {
                proof {
                    lemma_view_array(*src);
                    lemma_view_array(*dst);
                }
                diff_arrays(path, src, dst, diffs);
                return ;
            }
        },
        JsonValue::Object(src) => {
            if let JsonValue::Object(dst) = dest {
                proof {
                    lemma_view_object(*src);
                    lemma_view_object(*dst);
                }
                diff_objects(path, src, dst, diffs);
                return ;
            }
        },
        _ => {},
    }
    if !values_equal(source, dest) {
        proof {
            reveal_strlit("root");
            assert("root"@ =~= root_text());
        }
        let key = if path.is_empty() {
            String::from_str("root")
        } else {
            String::from_str(path)
        };
        push_changed(diffs, key, source, dest);
        assert(records(diffs@) =~= records(old(diffs)@) + value_changes(path@, source@, dest@));
    } else {
        assert(records(diffs@) =~= records(old(diffs)@) + value_changes(path@, source@, dest@));
    }
}

/// Compares two arrays at `path`: by identity where either has an identity
/// map, by position where neither has.
pub fn diff_arrays(path: &str, src: &Vec<JsonValue>, dst: &Vec<JsonValue>, diffs: &mut Vec<DiffEntry>)
    ensures
        records(final(diffs)@) == records(old(diffs)@) + array_changes(
            path@,
            items_view(src@),
            items_view(dst@),
        ),
    decreases src, 2nat,
{
    let src_map = to_id_map(src);
    let dst_map = to_id_map(dst);
    match (src_map, dst_map) {
        (None, None) => {
            diff_by_index(path, src, dst, diffs);
        },
        (Some(src_ids), Some(dst_ids)) => {
            diff_by_id(path, src, dst, &src_ids, &dst_ids, diffs);
        },
        (Some(src_ids), None) => {
            let dst_ids: Vec<(String, usize)> = Vec::new();
            assert(entries_view(dst_ids@) =~= id_map(items_view(dst@)));
            diff_by_id(path, src, dst, &src_ids, &dst_ids, diffs);
        },
        (None, Some(dst_ids)) => {
            let src_ids: Vec<(String, usize)> = Vec::new();
            assert(entries_view(src_ids@) =~= id_map(items_view(src@)));
            diff_by_id(path, src, dst, &src_ids, &dst_ids, diffs);
        },
    }
}

/// Compares two arrays through their identity maps: first the identities of
/// the source, then those that only the destination has.
pub fn diff_by_id(
    path: &str,
    src: &Vec<JsonValue>,
    dst: &Vec<JsonValue>,
    src_map: &Vec<(String, usize)>,
    dst_map: &Vec<(String, usize)>,
    diffs: &mut Vec<DiffEntry>,
)
    requires
        entries_within(entries_view(src_map@), src@.len()),
        entries_within(entries_view(dst_map@), dst@.len()),
    ensures
        records(final(diffs)@) == records(old(diffs)@) + (id_changes_source(
            path@,
            items_view(src@),
            items_view(dst@),
            entries_view(src_map@),
            entries_view(dst_map@),
            src_map@.len(),
        ) + id_changes_dest(
            path@,
            items_view(dst@),
            entries_view(src_map@),
            entries_view(dst_map@),
            dst_map@.len(),
        )),
    decreases src, 1nat,
{
    let ghost start = records(diffs@);
    let ghost xs = items_view(src@);
    let ghost ys = items_view(dst@);
    let ghost sm = entries_view(src_map@);
    let ghost dm = entries_view(dst_map@);
    let mut k: usize = 0;
    while k < src_map.len()
        invariant
            k <= src_map.len(),
            xs == items_view(src@),
            ys == items_view(dst@),
            sm == entries_view(src_map@),
            dm == entries_view(dst_map@),
            entries_within(sm, src@.len()),
            entries_within(dm, dst@.len()),
            records(diffs@) == start + id_changes_source(path@, xs, ys, sm, dm, k as nat),
        decreases src_map.len() - k,
    {
        let ghost before = records(diffs@);
        let id = &src_map[k].0;
        let i = src_map[k].1;
        assert(sm[k as int].index == i);
        let item_path = id_path_text(path, id.as_str());
        match find_entry(dst_map, id) {
            Some(p) => {
                let j = dst_map[p].1;
                assert(dm[p as int].index == j);
                diff_values(item_path.as_str(), &src[i], &dst[j], diffs);
                assert(records(diffs@) =~= start + id_changes_source(
                    path@,
                    xs,
                    ys,
                    sm,
                    dm,
                    (k + 1) as nat,
                ));
            },
            None => {
                push_removed(diffs, item_path, &src[i]);
                assert(records(diffs@) =~= start + id_changes_source(
                    path@,
                    xs,
                    ys,
                    sm,
                    dm,
                    (k + 1) as nat,
                ));
            },
        }
        k += 1;
    }
    let ghost middle = records(diffs@);
    let mut k: usize = 0;
    while k < dst_map.len()
        invariant
            k <= dst_map.len(),
            ys == items_view(dst@),
            sm == entries_view(src_map@),
            dm == entries_view(dst_map@),
            entries_within(dm, dst@.len()),
            records(diffs@) == middle + id_changes_dest(path@, ys, sm, dm, k as nat),
        decreases dst_map.len() - k,
    {
        let id = &dst_map[k].0;
        let j = dst_map[k].1;
        assert(dm[k as int].index == j);
        if find_entry(src_map, id).is_none() {
            let item_path = id_path_text(path, id.as_str());
            push_added(diffs, item_path, &dst[j]);
        }
        assert(records(diffs@) =~= middle + id_changes_dest(path@, ys, sm, dm, (k + 1) as nat));
        k += 1;
    }
    assert(records(diffs@) =~= start + (id_changes_source(path@, xs, ys, sm, dm, sm.len())
        + id_changes_dest(path@, ys, sm, dm, dm.len())));
}

/// Compares two arrays position by position. Two objects at one position are
/// reported whole where they differ.
pub fn diff_by_index(path: &str, src: &Vec<JsonValue>, dst: &Vec<JsonValue>, diffs: &mut Vec<DiffEntry>)
    ensures
        records(final(diffs)@) == records(old(diffs)@) + index_changes(
            path@,
            items_view(src@),
            items_view(dst@),
            if src@.len() >= dst@.len() {
                src@.len()
            } else {
                dst@.len()
            },
        ),
    decreases src, 1nat,
{
    let ghost start = records(diffs@);
    let ghost xs = items_view(src@);
    let ghost ys = items_view(dst@);
    let max_len = if src.len() >= dst.len() {
        src.len()
    } else {
        dst.len()
    };
    let mut i: usize = 0;
    while i < max_len
        invariant
            i <= max_len,
            max_len == if src@.len() >= dst@.len() {
                src@.len()
            } else {
                dst@.len()
            },
            xs == items_view(src@),
            ys == items_view(dst@),
            records(diffs@) == start + index_changes(path@, xs, ys, i as nat),
        decreases max_len - i,
    {
        let item_path = index_path_text(path, i);
        if i < src.len() && i < dst.len() {
            let s = &src[i];
            let d = &dst[i];
            let both_objects = match s {
                JsonValue::Object(_) => match d {
                    JsonValue::Object(_) => true,
                    _ => false,
                },
                _ => false,
            };
            assert(both_objects == (xs[i as int] is Object && ys[i as int] is Object));
            if both_objects {
                if !values_equal(s, d) {
                    push_changed(diffs, item_path, s, d);
                }
            } else {
                diff_values(item_path.as_str(), s, d, diffs);
            }
        } else if i < src.len() {
            push_removed(diffs, item_path, &src[i]);
        } else {
            push_added(diffs, item_path, &dst[i]);
        }
        assert(records(diffs@) =~= start + index_changes(path@, xs, ys, (i + 1) as nat));
        i += 1;
    }
}

/// Compares two objects field by field: first the fields of the source, then
/// the fields that only the destination has.
pub fn diff_objects(
    path: &str,
    src: &Vec<(String, JsonValue)>,
    dst: &Vec<(String, JsonValue)>,
    diffs: &mut Vec<DiffEntry>,
)
    ensures
        records(final(diffs)@) == records(old(diffs)@) + object_changes(
            path@,
            fields_view(src@),
            fields_view(dst@),
        ),
    decreases src, 2nat,
{
    let ghost start = records(diffs@);
    let ghost fs = fields_view(src@);
    let ghost gs = fields_view(dst@);
    let mut i: usize = 0;
    while i < src.len()
        invariant
            i <= src.len(),
            fs == fields_view(src@),
            gs == fields_view(dst@),
            records(diffs@) == start + field_changes_source(path@, fs, gs, i as nat),
        decreases src.len() - i,
    {
        let key = &src[i].0;
        let field_path = field_path_text(path, key.as_str());
        match find_key(dst, key) {
            Some(k) => {
                diff_values(field_path.as_str(), &src[i].1, &dst[k].1, diffs);
            },
            None => {
                push_removed(diffs, field_path, &src[i].1);
            },
        }
        assert(records(diffs@) =~= start + field_changes_source(path@, fs, gs, (i + 1) as nat));
        i += 1;
    }
    let ghost middle = records(diffs@);
    let mut j: usize = 0;
    while j < dst.len()
        invariant
            j <= dst.len(),
            fs == fields_view(src@),
            gs == fields_view(dst@),
            records(diffs@) == middle + field_changes_dest(path@, fs, gs, j as nat),
        decreases dst.len() - j,
    {
        let key = &dst[j].0;
        if find_key(src, key).is_none() {
            let field_path = field_path_text(path, key.as_str());
            push_added(diffs, field_path, &dst[j].1);
        }
        assert(records(diffs@) =~= middle + field_changes_dest(path@, fs, gs, (j + 1) as nat));
        j += 1;
    }
    assert(records(diffs@) =~= start + object_changes(path@, fs, gs));
}

fn without_reserved_secrets(arr: &Vec<JsonValue>) -> (kept: Vec<JsonValue>)
    ensures
        items_view(kept@) == without_reserved(items_view(arr@)),
{
    let ghost items = items_view(arr@);
    let ghost keep = |v: Json| !is_reserved_secret(v);
    let mut kept: Vec<JsonValue> = Vec::new();
    let mut i: usize = 0;
    proof {
        reveal(Seq::filter);
        assert(items.take(0).filter(keep) =~= Seq::<Json>::empty());
    }
    while i < arr.len()
        invariant
            i <= arr.len(),
            items == items_view(arr@),
            keep == |v: Json| !is_reserved_secret(v),
            items_view(kept@) == items.take(i as int).filter(keep),
        decreases arr.len() - i,
    {
        let ghost before = items_view(kept@);
        proof {
            reveal(Seq::filter);
            assert(items.take(i + 1).drop_last() =~= items.take(i as int));
            assert(items.take(i + 1).last() == items[i as int]);
        }
        if !is_supabase_secret(&arr[i]) {
            kept.push(arr[i].clone());
            assert(items_view(kept@) =~= before.push(items[i as int]));
        }
        i += 1;
    }
    assert(items.take(arr@.len() as int) =~= items);
    kept
}

/// Compares the two values of one category. In the secrets category two
/// arrays are compared without their reserved secrets.
pub fn calculate_diff(config_type: &str, source: &JsonValue, dest: &JsonValue) -> (r: Result<
    Vec<DiffEntry>,
    PreviewError,
>)
    ensures
        r is Ok,
        records(r->Ok_0@) == category_changes(config_type@, source@, dest@),
{
    let mut diff_entries: Vec<DiffEntry> = Vec::new();
    assert(records(diff_entries@) =~= Seq::<crate::models::DiffRecord>::empty());
    proof {
        reveal_strlit("Secrets");
        reveal_strlit("");
        assert("Secrets"@ =~= secrets_category());
        assert(""@ =~= Seq::<char>::empty());
    }
    if String::from_str(config_type) == String::from_str("Secrets") {
        if let JsonValue::Array(src_arr) = source {
            if let JsonValue::Array(dst_arr) = dest {
                let filtered_src_value = JsonValue::Array(without_reserved_secrets(src_arr));
                let filtered_dst_value = JsonValue::Array(without_reserved_secrets(dst_arr));
                proof {
                    lemma_view_array(*src_arr);
                    lemma_view_array(*dst_arr);
                    lemma_view_array(filtered_src_value->Array_0);
                    lemma_view_array(filtered_dst_value->Array_0);
                }
                diff_values("", &filtered_src_value, &filtered_dst_value, &mut diff_entries);
                assert(records(diff_entries@) =~= category_changes(config_type@, source@, dest@));
                return Ok(diff_entries);
            }
        }
    }
    diff_values("", source, dest, &mut diff_entries);
    assert(records(diff_entries@) =~= category_changes(config_type@, source@, dest@));
    Ok(diff_entries)
}

/// Compares the two values of the category `config_type`. Yields nothing where
/// no difference is found, and the records under the category's name
/// otherwise.
pub fn json_diff(config_type: String, source_value: JsonValue, dest_value: JsonValue) -> (r: Result<
    Option<ProjectConfig>,
    PreviewError,
>)
    ensures
        r is Ok,
        match r->Ok_0 {
            Some(config) => category_diff(config_type@, source_value@, dest_value@) == Some(
                config@,
            ),
            None => category_diff(config_type@, source_value@, dest_value@) is None,
        },
{
    match calculate_diff(config_type.as_str(), &source_value, &dest_value) {
        Ok(diff_entries) => {
            if diff_entries.len() == 0 {
                Ok(None)
            } else {
                Ok(Some(ProjectConfig { name: config_type, diffs: diff_entries }))
            }
        },
        Err(e) => Err(e),
    }
}

} // verus!
