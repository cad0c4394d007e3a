//! What holds of every comparison.

use crate::changes::{
    category_changes, category_diff, entry_position, field_changes_dest, field_changes_source,
    field_path, id_changes_dest, id_changes_source, id_map, id_path, index_changes, index_path,
    is_reserved_secret, lemma_entry_position, secrets_category, value_changes, without_reserved,
    IdEntry,
};
use crate::json::{json_eq, key_index, lemma_key_index, Field, Json, JsonValue};
use crate::lemmas::{
    lemma_id_map, lemma_json_eq_reflexive, lemma_json_eq_symmetric, lemma_key_index_of_own_key,
};
use crate::render::rendered;
use vstd::prelude::*;

verus! {

/// The two values show no difference: what it takes for their comparison to
/// yield no record, whatever the path.
spec fn no_difference(a: Json, b: Json) -> bool
    decreases a,
{
    match a {
        Json::Array(xs) if b is Array => {
            let ys = b->Array_0;
            if id_map(xs).len() > 0 || id_map(ys).len() > 0 {
                &&& forall|k: int|
                    0 <= k < id_map(xs).len() && 0 <= (#[trigger] id_map(xs)[k]).index < xs.len()
                        ==> entry_position(id_map(ys), id_map(xs)[k].id) >= 0 && no_difference(
                        xs[id_map(xs)[k].index],
                        ys[id_map(ys)[entry_position(id_map(ys), id_map(xs)[k].id)].index],
                    )
                &&& forall|k: int|
                    0 <= k < id_map(ys).len() ==> entry_position(
                        id_map(xs),
                        (#[trigger] id_map(ys)[k]).id,
                    ) >= 0
            } else {
                &&& xs.len() == ys.len()
                &&& forall|i: int|
                    0 <= i < xs.len() ==> if (#[trigger] xs[i]) is Object && ys[i] is Object {
                        json_eq(xs[i], ys[i])
                    } else {
                        no_difference(xs[i], ys[i])
                    }
            }
        },
        Json::Object(fs) if b is Object => {
            let gs = b->Object_0;
            &&& forall|i: int|
                0 <= i < fs.len() ==> key_index(gs, (#[trigger] fs[i]).key) >= 0 && no_difference(
                    fs[i].value,
                    gs[key_index(gs, fs[i].key)].value,
                )
            &&& forall|j: int| 0 <= j < gs.len() ==> key_index(fs, (#[trigger] gs[j]).key) >= 0
        },
        _ => json_eq(a, b),
    }
}

proof fn lemma_value_changes_empty(path: Seq<char>, a: Json, b: Json)
    ensures
        (value_changes(path, a, b).len() == 0) == no_difference(a, b),
    decreases a, 0nat, 0nat,
{
    match a {
        Json::Array(xs) if b is Array => {
            let ys = b->Array_0;
            let sm = id_map(xs);
            let dm = id_map(ys);
            if sm.len() > 0 || dm.len() > 0 {
                lemma_id_source_empty(path, xs, ys, sm, dm, sm.len());
                lemma_id_dest_empty(path, ys, sm, dm, dm.len());
            } else {
                let n = if xs.len() >= ys.len() {
                    xs.len()
                } else {
                    ys.len()
                };
                lemma_index_empty(path, xs, ys, n);
                if no_difference(a, b) {
                    assert forall|i: int| 0 <= i < n implies index_agrees(xs, ys, i) by {
                        assert(xs[i] == xs[i]);
                    }
                }
                if index_changes(path, xs, ys, n).len() == 0 {
                    if xs.len() != ys.len() {
                        assert(index_agrees(xs, ys, n - 1));
                    }
                    assert forall|i: int| 0 <= i < xs.len() implies if (#[trigger] xs[i]) is Object
                        && ys[i] is Object {
                        json_eq(xs[i], ys[i])
                    } else {
                        no_difference(xs[i], ys[i])
                    } by {
                        assert(index_agrees(xs, ys, i));
                    }
                }
            }
        },
        Json::Object(fs) if b is Object => {
            let gs = b->Object_0;
            lemma_field_source_empty(path, fs, gs, fs.len());
            lemma_field_dest_empty(path, fs, gs, gs.len());
        },
        _ => {},
    }
}

proof fn lemma_id_source_empty(
    path: Seq<char>,
    xs: Seq<Json>,
    ys: Seq<Json>,
    sm: Seq<IdEntry>,
    dm: Seq<IdEntry>,
    n: nat,
)
    requires
        n <= sm.len(),
    ensures
        (id_changes_source(path, xs, ys, sm, dm, n).len() == 0) == (forall|k: int|
            0 <= k < n && 0 <= (#[trigger] sm[k]).index < xs.len() ==> entry_position(dm, sm[k].id)
                >= 0 && no_difference(xs[sm[k].index], ys[dm[entry_position(dm, sm[k].id)].index])),
    decreases xs, 1nat, n,
{
    if n > 0 {
        lemma_id_source_empty(path, xs, ys, sm, dm, (n - 1) as nat);
        let e = sm[n - 1];
        let p = entry_position(dm, e.id);
        if 0 <= e.index < xs.len() && p >= 0 {
            lemma_value_changes_empty(id_path(path, e.id), xs[e.index], ys[dm[p].index]);
        }
        let here = 0 <= e.index < xs.len() ==> p >= 0 && no_difference(
            xs[e.index],
            ys[dm[p].index],
        );
        assert((id_changes_source(path, xs, ys, sm, dm, n).len() == 0) == (id_changes_source(
            path,
            xs,
            ys,
            sm,
            dm,
            (n - 1) as nat,
        ).len() == 0 && here));
    }
}

proof fn lemma_id_dest_empty(path: Seq<char>, ys: Seq<Json>, sm: Seq<IdEntry>, dm: Seq<IdEntry>, n: nat)
    requires
        n <= dm.len(),
    ensures
        (id_changes_dest(path, ys, sm, dm, n).len() == 0) == (forall|k: int|
            0 <= k < n ==> entry_position(sm, (#[trigger] dm[k]).id) >= 0),
    decreases n,
{
    if n > 0 {
        lemma_id_dest_empty(path, ys, sm, dm, (n - 1) as nat);
        let here = entry_position(sm, dm[n - 1].id) >= 0;
        assert((id_changes_dest(path, ys, sm, dm, n).len() == 0) == (id_changes_dest(
            path,
            ys,
            sm,
            dm,
            (n - 1) as nat,
        ).len() == 0 && here));
    }
}

/// What position `i` of two arrays without identities asks for.
spec fn index_agrees(xs: Seq<Json>, ys: Seq<Json>, i: int) -> bool {
    &&& i < xs.len()
    &&& i < ys.len()
    &&& if xs[i] is Object && ys[i] is Object {
        json_eq(xs[i], ys[i])
    } else {
        no_difference(xs[i], ys[i])
    }
}

proof fn lemma_index_empty(path: Seq<char>, xs: Seq<Json>, ys: Seq<Json>, n: nat)
    requires
        n <= xs.len() || n <= ys.len(),
    ensures
        (index_changes(path, xs, ys, n).len() == 0) == (forall|i: int|
            0 <= i < n ==> index_agrees(xs, ys, i)),
    decreases xs, 1nat, n,
{
    if n > 0 {
        lemma_index_empty(path, xs, ys, (n - 1) as nat);
        let i = n - 1;
        if i < xs.len() && i < ys.len() && !(xs[i] is Object && ys[i] is Object) {
            lemma_value_changes_empty(index_path(path, i), xs[i], ys[i]);
        }
        assert((index_changes(path, xs, ys, n).len() == 0) == (index_changes(
            path,
            xs,
            ys,
            (n - 1) as nat,
        ).len() == 0 && index_agrees(xs, ys, i)));
    }
}

proof fn lemma_field_source_empty(path: Seq<char>, fs: Seq<Field>, gs: Seq<Field>, n: nat)
    requires
        n <= fs.len(),
    ensures
        (field_changes_source(path, fs, gs, n).len() == 0) == (forall|i: int|
            0 <= i < n ==> key_index(gs, (#[trigger] fs[i]).key) >= 0 && no_difference(
                fs[i].value,
                gs[key_index(gs, fs[i].key)].value,
            )),
    decreases fs, 1nat, n,
{
    if n > 0 {
        lemma_field_source_empty(path, fs, gs, (n - 1) as nat);
        let f = fs[n - 1];
        let k = key_index(gs, f.key);
        if k >= 0 {
            lemma_value_changes_empty(field_path(path, f.key), f.value, gs[k].value);
        }
        let here = k >= 0 && no_difference(f.value, gs[k].value);
        assert((field_changes_source(path, fs, gs, n).len() == 0) == (field_changes_source(
            path,
            fs,
            gs,
            (n - 1) as nat,
        ).len() == 0 && here));
    }
}

proof fn lemma_field_dest_empty(path: Seq<char>, fs: Seq<Field>, gs: Seq<Field>, n: nat)
    requires
        n <= gs.len(),
    ensures
        (field_changes_dest(path, fs, gs, n).len() == 0) == (forall|j: int|
            0 <= j < n ==> key_index(fs, (#[trigger] gs[j]).key) >= 0),
    decreases n,
{
    if n > 0 {
        lemma_field_dest_empty(path, fs, gs, (n - 1) as nat);
        let here = key_index(fs, gs[n - 1].key) >= 0;
        assert((field_changes_dest(path, fs, gs, n).len() == 0) == (field_changes_dest(
            path,
            fs,
            gs,
            (n - 1) as nat,
        ).len() == 0 && here));
    }
}

proof fn lemma_no_difference_reflexive(v: Json)
    requires
        v.wf(),
    ensures
        no_difference(v, v),
    decreases v,
{
    match v {
        Json::Array(xs) => {
            let m = id_map(xs);
            lemma_id_map(xs);
            if m.len() > 0 {
                assert forall|k: int|
                    0 <= k < m.len() && 0 <= (#[trigger] m[k]).index < xs.len() implies entry_position(
                    m,
                    m[k].id,
                ) >= 0 && no_difference(
                    xs[m[k].index],
                    xs[m[entry_position(m, m[k].id)].index],
                ) by {
                    lemma_no_difference_reflexive(xs[m[k].index]);
                }
            } else {
                assert forall|i: int| 0 <= i < xs.len() implies if (#[trigger] xs[i]) is Object
                    && xs[i] is Object {
                    json_eq(xs[i], xs[i])
                } else {
                    no_difference(xs[i], xs[i])
                } by {
                    lemma_json_eq_reflexive(xs[i]);
                    lemma_no_difference_reflexive(xs[i]);
                }
            }
        },
        Json::Object(fs) => {
            assert forall|i: int| 0 <= i < fs.len() implies key_index(fs, (#[trigger] fs[i]).key)
                >= 0 && no_difference(fs[i].value, fs[key_index(fs, fs[i].key)].value) by {
                lemma_key_index_of_own_key(fs, i);
                lemma_no_difference_reflexive(fs[i].value);
            }
            assert forall|j: int| 0 <= j < fs.len() implies key_index(fs, (#[trigger] fs[j]).key)
                >= 0 by {
                lemma_key_index_of_own_key(fs, j);
            }
        },
        _ => {
            lemma_json_eq_reflexive(v);
        },
    }
}

/// One direction of the symmetry for two arrays with identities: from what
/// holds of `xs` against `ys` to what holds of `ys` against `xs`.
proof fn lemma_ids_swap(xs: Seq<Json>, ys: Seq<Json>)
    requires
        Json::Array(xs).wf(),
        Json::Array(ys).wf(),
        forall|x: Json, y: Json|
            xs.contains(x) && ys.contains(y) ==> #[trigger] no_difference(x, y) == no_difference(
                y,
                x,
            ),
        id_map(xs).len() > 0 || id_map(ys).len() > 0,
        no_difference(Json::Array(xs), Json::Array(ys)),
    ensures
        no_difference(Json::Array(ys), Json::Array(xs)),
{
    let sm = id_map(xs);
    let dm = id_map(ys);
    lemma_id_map(xs);
    lemma_id_map(ys);
    assert forall|k: int|
        0 <= k < dm.len() && 0 <= (#[trigger] dm[k]).index < ys.len() implies entry_position(
        sm,
        dm[k].id,
    ) >= 0 && no_difference(ys[dm[k].index], xs[sm[entry_position(sm, dm[k].id)].index]) by {
        let q = entry_position(sm, dm[k].id);
        lemma_entry_position(sm, dm[k].id);
        assert(sm[q].id == dm[k].id);
        assert(entry_position(dm, sm[q].id) >= 0 && no_difference(
            xs[sm[q].index],
            ys[dm[entry_position(dm, sm[q].id)].index],
        ));
        assert(xs.contains(xs[sm[q].index]));
        assert(ys.contains(ys[dm[k].index]));
    }
    assert forall|k: int| 0 <= k < sm.len() implies entry_position(dm, (#[trigger] sm[k]).id)
        >= 0 by {
        assert(0 <= sm[k].index < xs.len());
    }
}

/// One direction of the symmetry for two objects.
proof fn lemma_fields_swap(fs: Seq<Field>, gs: Seq<Field>)
    requires
        Json::Object(fs).wf(),
        Json::Object(gs).wf(),
        forall|i: int, j: int|
            0 <= i < fs.len() && 0 <= j < gs.len() ==> #[trigger] no_difference(
                fs[i].value,
                gs[j].value,
            ) == no_difference(gs[j].value, fs[i].value),
        no_difference(Json::Object(fs), Json::Object(gs)),
    ensures
        no_difference(Json::Object(gs), Json::Object(fs)),
{
    assert forall|j: int| 0 <= j < gs.len() implies key_index(fs, (#[trigger] gs[j]).key) >= 0
        && no_difference(gs[j].value, fs[key_index(fs, gs[j].key)].value) by {
        let i = key_index(fs, gs[j].key);
        lemma_key_index(fs, gs[j].key);
        assert(fs[i].key == gs[j].key);
        lemma_key_index_of_own_key(gs, j);
        assert(no_difference(fs[i].value, gs[j].value));
    }
    assert forall|i: int| 0 <= i < fs.len() implies key_index(gs, (#[trigger] fs[i]).key) >= 0 by {}
}

proof fn lemma_no_difference_symmetric(a: Json, b: Json)
    requires
        a.wf(),
        b.wf(),
    ensures
        no_difference(a, b) == no_difference(b, a),
    decreases a, b,
{
    match a {
        Json::Array(xs) if b is Array => {
            let ys = b->Array_0;
            assert forall|x: Json, y: Json| xs.contains(x) && ys.contains(y) implies #[trigger] no_difference(
                x,
                y,
            ) == no_difference(y, x) by {
                lemma_no_difference_symmetric(x, y);
            }
            assert forall|y: Json, x: Json| ys.contains(y) && xs.contains(x) implies #[trigger] no_difference(
                y,
                x,
            ) == no_difference(x, y) by {
                lemma_no_difference_symmetric(x, y);
            }
            if id_map(xs).len() > 0 || id_map(ys).len() > 0 {
                if no_difference(a, b) {
                    lemma_ids_swap(xs, ys);
                }
                if no_difference(b, a) {
                    lemma_ids_swap(ys, xs);
                }
            } else if xs.len() == ys.len() {
                assert forall|i: int| 0 <= i < xs.len() implies (json_eq(xs[i], ys[i]) == json_eq(
                    ys[i],
                    xs[i],
                )) && (no_difference(xs[i], ys[i]) == no_difference(ys[i], xs[i])) by {
                    lemma_json_eq_symmetric(xs[i], ys[i]);
                    assert(xs.contains(xs[i]) && ys.contains(ys[i]));
                }
                if no_difference(a, b) {
                    assert forall|i: int| 0 <= i < ys.len() implies if (#[trigger] ys[i]) is Object
                        && xs[i] is Object {
                        json_eq(ys[i], xs[i])
                    } else {
                        no_difference(ys[i], xs[i])
                    } by {
                        assert(xs[i] == xs[i]);
                    }
                }
                if no_difference(b, a) {
                    assert forall|i: int| 0 <= i < xs.len() implies if (#[trigger] xs[i]) is Object
                        && ys[i] is Object {
                        json_eq(xs[i], ys[i])
                    } else {
                        no_difference(xs[i], ys[i])
                    } by {
                        assert(ys[i] == ys[i]);
                    }
                }
            }
        },
        Json::Object(fs) if b is Object => {
            let gs = b->Object_0;
            assert forall|i: int, j: int| 0 <= i < fs.len() && 0 <= j < gs.len() implies #[trigger] no_difference(
                fs[i].value,
                gs[j].value,
            ) == no_difference(gs[j].value, fs[i].value) by {
                lemma_no_difference_symmetric(fs[i].value, gs[j].value);
            }
            assert forall|j: int, i: int| 0 <= j < gs.len() && 0 <= i < fs.len() implies #[trigger] no_difference(
                gs[j].value,
                fs[i].value,
            ) == no_difference(fs[i].value, gs[j].value) by {
                lemma_no_difference_symmetric(fs[i].value, gs[j].value);
            }
            if no_difference(a, b) {
                lemma_fields_swap(fs, gs);
            }
            if no_difference(b, a) {
                lemma_fields_swap(gs, fs);
            }
        },
        _ => {
            lemma_json_eq_symmetric(a, b);
            lemma_json_eq_symmetric(b, a);
        },
    }
}

proof fn lemma_kept_are_wf(items: Seq<Json>)
    requires
        forall|i: int| 0 <= i < items.len() ==> (#[trigger] items[i]).wf(),
    ensures
        forall|i: int|
            0 <= i < without_reserved(items).len() ==> (#[trigger] without_reserved(items)[i]).wf(),
    decreases items.len(),
{
    reveal(Seq::filter);
    if items.len() > 0 {
        let rest = items.drop_last();
        assert forall|i: int| 0 <= i < rest.len() implies (#[trigger] rest[i]).wf() by {
            assert(rest[i] == items[i]);
        }
        lemma_kept_are_wf(rest);
        let kept = without_reserved(items);
        let earlier = without_reserved(rest);
        assert forall|i: int| 0 <= i < kept.len() implies (#[trigger] kept[i]).wf() by {
            if i < earlier.len() {
                assert(kept[i] == earlier[i]);
            } else {
                assert(kept[i] == items[items.len() - 1]);
            }
        }
    }
}

proof fn lemma_without_reserved_wf(items: Seq<Json>)
    requires
        Json::Array(items).wf(),
    ensures
        Json::Array(without_reserved(items)).wf(),
{
    let whole = Json::Array(items);
    assert(whole->Array_0 == items);
    assert(forall|i: int| 0 <= i < whole->Array_0.len() ==> (#[trigger] whole->Array_0[i]).wf());
    assert forall|i: int| 0 <= i < items.len() implies (#[trigger] items[i]).wf() by {}
    lemma_kept_are_wf(items);
}

/// A value that is compared with itself yields no result, in any category.
pub proof fn law_same_value_no_result(category: Seq<char>, v: Json)
    requires
        v.wf(),
    ensures
        category_diff(category, v, v) is None,
{
    if category == secrets_category() && v is Array {
        let kept = Json::Array(without_reserved(v->Array_0));
        lemma_without_reserved_wf(v->Array_0);
        lemma_no_difference_reflexive(kept);
        lemma_value_changes_empty(Seq::empty(), kept, kept);
    } else {
        lemma_no_difference_reflexive(v);
        lemma_value_changes_empty(Seq::empty(), v, v);
    }
}

/// Whether a difference is found does not depend on which value is taken as
/// the source: the comparison of `a` with `b` yields a result exactly when
/// the comparison of `b` with `a` yields one.
pub proof fn law_detection_is_symmetric(category: Seq<char>, a: Json, b: Json)
    requires
        a.wf(),
        b.wf(),
    ensures
        category_diff(category, a, b) is None <==> category_diff(category, b, a) is None,
{
    if category == secrets_category() && a is Array && b is Array {
        let x = Json::Array(without_reserved(a->Array_0));
        let y = Json::Array(without_reserved(b->Array_0));
        lemma_without_reserved_wf(a->Array_0);
        lemma_without_reserved_wf(b->Array_0);
        lemma_no_difference_symmetric(x, y);
        lemma_value_changes_empty(Seq::empty(), x, y);
        lemma_value_changes_empty(Seq::empty(), y, x);
    } else {
        lemma_no_difference_symmetric(a, b);
        lemma_value_changes_empty(Seq::empty(), a, b);
        lemma_value_changes_empty(Seq::empty(), b, a);
    }
}

/// In the secrets category two arrays are compared as if they held no
/// reserved secret: none of the elements that are compared is one.
pub proof fn law_reserved_secrets_are_left_out(xs: Seq<Json>, ys: Seq<Json>)
    ensures
        category_changes(secrets_category(), Json::Array(xs), Json::Array(ys)) == value_changes(
            Seq::empty(),
            Json::Array(without_reserved(xs)),
            Json::Array(without_reserved(ys)),
        ),
        forall|i: int|
            0 <= i < without_reserved(xs).len() ==> !is_reserved_secret(
                #[trigger] without_reserved(xs)[i],
            ),
        forall|i: int|
            0 <= i < without_reserved(ys).len() ==> !is_reserved_secret(
                #[trigger] without_reserved(ys)[i],
            ),
{
    let keep = |v: Json| !is_reserved_secret(v);
    assert forall|i: int| 0 <= i < without_reserved(xs).len() implies !is_reserved_secret(
        #[trigger] without_reserved(xs)[i],
    ) by {
        xs.lemma_filter_pred(keep, i);
    }
    assert forall|i: int| 0 <= i < without_reserved(ys).len() implies !is_reserved_secret(
        #[trigger] without_reserved(ys)[i],
    ) by {
        ys.lemma_filter_pred(keep, i);
    }
}

proof fn lemma_insert_reserved(items: Seq<Json>, i: int, secret: Json)
    requires
        0 <= i <= items.len(),
        is_reserved_secret(secret),
    ensures
        without_reserved(items.insert(i, secret)) == without_reserved(items),
{
    let keep = |v: Json| !is_reserved_secret(v);
    let head = items.take(i);
    let tail = items.skip(i);
    let one = seq![secret];
    assert(items.insert(i, secret) =~= (head + one) + tail);
    assert(items =~= head + tail);
    Seq::filter_distributes_over_add(head + one, tail, keep);
    Seq::filter_distributes_over_add(head, one, keep);
    Seq::filter_distributes_over_add(head, tail, keep);
    assert(one.filter(keep) =~= Seq::<Json>::empty()) by {
        reveal_with_fuel(Seq::filter, 2);
        assert(one.drop_last() =~= Seq::<Json>::empty());
    }
    assert(head.filter(keep) + one.filter(keep) =~= head.filter(keep));
}

/// In the secrets category a reserved secret changes nothing: whether one
/// more of them stands in the source or in the destination, at whatever
/// place, the records are the same.
pub proof fn law_reserved_secret_changes_nothing(xs: Seq<Json>, ys: Seq<Json>, i: int, secret: Json)
    requires
        is_reserved_secret(secret),
    ensures
        0 <= i <= xs.len() ==> category_changes(
            secrets_category(),
            Json::Array(xs.insert(i, secret)),
            Json::Array(ys),
        ) == category_changes(secrets_category(), Json::Array(xs), Json::Array(ys)),
        0 <= i <= ys.len() ==> category_changes(
            secrets_category(),
            Json::Array(xs),
            Json::Array(ys.insert(i, secret)),
        ) == category_changes(secrets_category(), Json::Array(xs), Json::Array(ys)),
{
    if 0 <= i <= xs.len() {
        lemma_insert_reserved(xs, i, secret);
    }
    if 0 <= i <= ys.len() {
        lemma_insert_reserved(ys, i, secret);
    }
}

/// Rendering is stable: two values of one model are rendered as one text.
pub proof fn law_rendering_is_stable(a: JsonValue, b: JsonValue)
    requires
        a@ == b@,
    ensures
        rendered(a@) == rendered(b@),
{
}

} // verus!
