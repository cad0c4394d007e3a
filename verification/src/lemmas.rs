//! Facts about keys, identity maps and equality that the laws rest on.

use crate::changes::{
    entry_position, id_map, id_map_upto, id_of, is_id_entry, lemma_entry_position,
};
use crate::json::{distinct_keys, json_eq, key_index, lemma_key_index, Field, Json};
use vstd::prelude::*;

verus! {

/// Among distinct keys, each field is the one that is found for its key.
pub proof fn lemma_key_index_of_own_key(fields: Seq<Field>, i: int)
    requires
        distinct_keys(fields),
        0 <= i < fields.len(),
    ensures
        key_index(fields, fields[i].key) == i,
{
    lemma_key_index(fields, fields[i].key);
}

/// Every entry of an identity map points at the last element with its
/// identity, and the entries stand in the order of those elements.
pub proof fn lemma_id_map_upto(items: Seq<Json>, n: nat)
    requires
        n <= items.len(),
    ensures
        forall|k: int|
            0 <= k < id_map_upto(items, n).len() ==> {
                let e = #[trigger] id_map_upto(items, n)[k];
                &&& 0 <= e.index < n
                &&& is_id_entry(items, e.index)
                &&& id_of(items[e.index]) == Some(e.id)
            },
        forall|k1: int, k2: int|
            0 <= k1 < k2 < id_map_upto(items, n).len() ==> (#[trigger] id_map_upto(
                items,
                n,
            )[k1]).index < (#[trigger] id_map_upto(items, n)[k2]).index,
    decreases n,
{
    if n > 0 {
        lemma_id_map_upto(items, (n - 1) as nat);
    }
}

/// The entries of an identity map point into the array, and no two of them
/// have one identity.
pub proof fn lemma_id_map(items: Seq<Json>)
    ensures
        forall|k: int|
            0 <= k < id_map(items).len() ==> {
                let e = #[trigger] id_map(items)[k];
                &&& 0 <= e.index < items.len()
                &&& id_of(items[e.index]) == Some(e.id)
                &&& entry_position(id_map(items), e.id) == k
            },
{
    let m = id_map(items);
    lemma_id_map_upto(items, items.len());
    assert forall|k: int| 0 <= k < m.len() implies entry_position(m, (#[trigger] m[k]).id) == k by {
        lemma_entry_position(m, m[k].id);
        let p = entry_position(m, m[k].id);
        if p < k {
            assert(m[p].index < m[k].index);
            assert(is_id_entry(items, m[p].index));
            assert(id_of(items[m[k].index]) != id_of(items[m[p].index]));
        }
    }
}

/// A value without repeated keys equals itself.
pub proof fn lemma_json_eq_reflexive(v: Json)
    requires
        v.wf(),
    ensures
        json_eq(v, v),
    decreases v,
{
    match v {
        Json::Array(xs) => {
            assert forall|i: int| 0 <= i < xs.len() implies json_eq(#[trigger] xs[i], xs[i]) by {
                lemma_json_eq_reflexive(xs[i]);
            }
        },
        Json::Object(fs) => {
            assert forall|i: int| 0 <= i < fs.len() implies key_index(fs, (#[trigger] fs[i]).key)
                >= 0 && json_eq(fs[i].value, fs[key_index(fs, fs[i].key)].value) by {
                lemma_key_index_of_own_key(fs, i);
                lemma_json_eq_reflexive(fs[i].value);
            }
            assert forall|j: int| 0 <= j < fs.len() implies key_index(fs, (#[trigger] fs[j]).key)
                >= 0 by {
                lemma_key_index_of_own_key(fs, j);
            }
        },
        _ => {},
    }
}

/// Between values without repeated keys, equality does not depend on the
/// side.
pub proof fn lemma_json_eq_symmetric(a: Json, b: Json)
    requires
        a.wf(),
        b.wf(),
    ensures
        json_eq(a, b) == json_eq(b, a),
    decreases a,
{
    match a {
        Json::Array(xs) => {
            if b is Array && xs.len() == b->Array_0.len() {
                let ys = b->Array_0;
                assert forall|i: int| 0 <= i < xs.len() implies json_eq(xs[i], ys[i]) == json_eq(
                    ys[i],
                    xs[i],
                ) by {
                    lemma_json_eq_symmetric(xs[i], ys[i]);
                }
                if json_eq(a, b) {
                    assert forall|i: int| 0 <= i < ys.len() implies json_eq(
                        #[trigger] ys[i],
                        xs[i],
                    ) by {
                        assert(json_eq(xs[i], ys[i]));
                    }
                }
                if json_eq(b, a) {
                    assert forall|i: int| 0 <= i < xs.len() implies json_eq(
                        #[trigger] xs[i],
                        ys[i],
                    ) by {
                        assert(json_eq(ys[i], xs[i]));
                    }
                }
            }
        },
        Json::Object(fs) => {
            if b is Object {
                let gs = b->Object_0;
                if json_eq(a, b) {
                    assert forall|j: int| 0 <= j < gs.len() implies key_index(
                        fs,
                        (#[trigger] gs[j]).key,
                    ) >= 0 && json_eq(gs[j].value, fs[key_index(fs, gs[j].key)].value) by {
                        let i = key_index(fs, gs[j].key);
                        lemma_key_index(fs, gs[j].key);
                        assert(fs[i].key == gs[j].key);
                        lemma_key_index_of_own_key(gs, j);
                        assert(json_eq(fs[i].value, gs[j].value));
                        lemma_json_eq_symmetric(fs[i].value, gs[j].value);
                    }
                    assert forall|i: int| 0 <= i < fs.len() implies key_index(
                        gs,
                        (#[trigger] fs[i]).key,
                    ) >= 0 by {}
                }
                if json_eq(b, a) {
                    assert forall|i: int| 0 <= i < fs.len() implies key_index(
                        gs,
                        (#[trigger] fs[i]).key,
                    ) >= 0 && json_eq(fs[i].value, gs[key_index(gs, fs[i].key)].value) by {
                        let j = key_index(gs, fs[i].key);
                        lemma_key_index(gs, fs[i].key);
                        assert(gs[j].key == fs[i].key);
                        lemma_key_index_of_own_key(fs, i);
                        assert(json_eq(gs[j].value, fs[i].value));
                        lemma_json_eq_symmetric(fs[i].value, gs[j].value);
                    }
                    assert forall|j: int| 0 <= j < gs.len() implies key_index(
                        fs,
                        (#[trigger] gs[j]).key,
                    ) >= 0 by {}
                }
            }
        },
        _ => {},
    }
}

} // verus!
