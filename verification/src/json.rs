//! JSON values, their mathematical model, and structural equality.

use vstd::prelude::*;
use vstd::string::*;

verus! {

/// A JSON number.
///
/// An integer is held by value: `PosInt` where it is not negative, `NegInt`
/// where it is (a `NegInt` that is not negative counts as the same integer).
/// A double is held as its decimal text in the shortest form that reads back
/// as the same double, which is the form in which it is printed: `1.5`,
/// `1e-7`, `0.0` and `-0.0`.
#[derive(Debug)]
pub enum JsonNumber {
    PosInt(u64),
    NegInt(i64),
    Float(String),
}

/// A JSON value.
///
/// An object is a list of `(key, value)` fields. A value that was read from
/// JSON text has no object with a key twice; in one that was built by hand
/// the last field of a key is the one that is found.
#[derive(Debug)]
pub enum JsonValue {
    Null,
    Bool(bool),
    Number(JsonNumber),
    String(String),
    Array(Vec<JsonValue>),
    Object(Vec<(String, JsonValue)>),
}

/// The model of a [`JsonNumber`].
pub enum Num {
    Int(int),
    Float(Seq<char>),
}

/// The model of one field of an object.
pub struct Field {
    pub key: Seq<char>,
    pub value: Json,
}

/// The model of a [`JsonValue`].
pub enum Json {
    Null,
    Bool(bool),
    Number(Num),
    String(Seq<char>),
    Array(Seq<Json>),
    Object(Seq<Field>),
}

impl View for JsonNumber {
    type V = Num;

    open spec fn view(&self) -> Num {
        match self {
            JsonNumber::PosInt(u) => Num::Int(*u as int),
            JsonNumber::NegInt(i) => Num::Int(*i as int),
            JsonNumber::Float(t) => Num::Float(t@),
        }
    }
}

impl View for JsonValue {
    type V = Json;

    open spec fn view(&self) -> Json
        decreases self,
    {
        match self {
            JsonValue::Null => Json::Null,
            JsonValue::Bool(b) => Json::Bool(*b),
            JsonValue::Number(n) => Json::Number(n@),
            JsonValue::String(s) => Json::String(s@),
            JsonValue::Array(items) => Json::Array(
                Seq::new(
                    items@.len(),
                    |i: int|
                        if 0 <= i < items@.len() {
                            items@[i].view()
                        } else {
                            Json::Null
                        },
                ),
            ),
            JsonValue::Object(fields) => Json::Object(
                Seq::new(
                    fields@.len(),
                    |i: int|
                        if 0 <= i < fields@.len() {
                            Field { key: fields@[i].0@, value: fields@[i].1.view() }
                        } else {
                            Field { key: Seq::empty(), value: Json::Null }
                        },
                ),
            ),
        }
    }
}

/// The models of the elements of an array, in order.
pub open spec fn items_view(items: Seq<JsonValue>) -> Seq<Json> {
    Seq::new(items.len(), |i: int| items[i]@)
}

/// The models of the fields of an object, in order.
pub open spec fn fields_view(fields: Seq<(String, JsonValue)>) -> Seq<Field> {
    Seq::new(fields.len(), |i: int| Field { key: fields[i].0@, value: fields[i].1@ })
}

pub proof fn lemma_view_array(items: Vec<JsonValue>)
    ensures
        JsonValue::Array(items)@ == Json::Array(items_view(items@)),
{
    assert(JsonValue::Array(items)@->Array_0 =~= items_view(items@));
}

pub proof fn lemma_view_object(fields: Vec<(String, JsonValue)>)
    ensures
        JsonValue::Object(fields)@ == Json::Object(fields_view(fields@)),
{
    assert(JsonValue::Object(fields)@->Object_0 =~= fields_view(fields@));
}

/// No key occurs twice among the fields.
pub open spec fn distinct_keys(fields: Seq<Field>) -> bool {
    forall|i: int, j: int|
        0 <= i < j < fields.len() ==> (#[trigger] fields[i]).key != (#[trigger] fields[j]).key
}

impl Json {
    /// Every object in the value, at any depth, has distinct keys.
    pub open spec fn wf(self) -> bool
        decreases self,
    {
        match self {
            Json::Array(items) => forall|i: int| 0 <= i < items.len() ==> (#[trigger] items[i]).wf(),
            Json::Object(fields) => distinct_keys(fields) && forall|i: int|
                0 <= i < fields.len() ==> (#[trigger] fields[i]).value.wf(),
            _ => true,
        }
    }
}

/// The position of the last field named `key`, or `-1` where there is none.
pub open spec fn key_index(fields: Seq<Field>, key: Seq<char>) -> int
    decreases fields.len(),
{
    if fields.len() == 0 {
        -1
    } else if fields.last().key == key {
        fields.len() - 1
    } else {
        key_index(fields.drop_last(), key)
    }
}

/// The position that `key_index` gives is that of the last field of the key.
pub proof fn lemma_key_index(fields: Seq<Field>, key: Seq<char>)
    ensures
        -1 <= key_index(fields, key) < fields.len(),
        key_index(fields, key) >= 0 ==> fields[key_index(fields, key)].key == key,
        forall|j: int|
            0 <= j < fields.len() && (#[trigger] fields[j]).key == key ==> j <= key_index(
                fields,
                key,
            ),
    decreases fields.len(),
{
    if fields.len() > 0 && fields.last().key != key {
        lemma_key_index(fields.drop_last(), key);
        let k = key_index(fields.drop_last(), key);
        assert forall|j: int| 0 <= j < fields.len() && (#[trigger] fields[j]).key == key implies j
            <= key_index(fields, key) by {
            assert(fields.drop_last()[j] == fields[j]);
        }
        if k >= 0 {
            assert(fields.drop_last()[k] == fields[k]);
        }
    }
}

/// The text of a double that is zero, with either sign.
pub open spec fn is_zero_text(t: Seq<char>) -> bool {
    t == seq!['0', '.', '0'] || t == seq!['-', '0', '.', '0']
}

/// Two numbers are equal when both are integers of the same value, or both are
/// doubles of the same value. The two zeros are one value.
pub open spec fn num_eq(a: Num, b: Num) -> bool {
    match (a, b) {
        (Num::Int(x), Num::Int(y)) => x == y,
        (Num::Float(s), Num::Float(t)) => s == t || (is_zero_text(s) && is_zero_text(t)),
        _ => false,
    }
}

/// Structural equality of two JSON values. Arrays are equal position by
/// position. Objects are equal when they have the same keys with equal values,
/// in whatever order the fields stand.
pub open spec fn json_eq(a: Json, b: Json) -> bool
    decreases a,
{
    match a {
        Json::Null => b is Null,
        Json::Bool(x) => b is Bool && b->Bool_0 == x,
        Json::Number(x) => b is Number && num_eq(x, b->Number_0),
        Json::String(x) => b is String && b->String_0 == x,
        Json::Array(xs) => b is Array && xs.len() == b->Array_0.len() && forall|i: int|
            0 <= i < xs.len() ==> json_eq(#[trigger] xs[i], b->Array_0[i]),
        Json::Object(fs) => b is Object && (forall|i: int|
            0 <= i < fs.len() ==> key_index(b->Object_0, (#[trigger] fs[i]).key) >= 0 && json_eq(
                fs[i].value,
                b->Object_0[key_index(b->Object_0, fs[i].key)].value,
            )) && (forall|j: int|
            0 <= j < b->Object_0.len() ==> key_index(fs, (#[trigger] b->Object_0[j]).key) >= 0),
    }
}

/// Finds the last field named `key`.
pub fn find_key(fields: &Vec<(String, JsonValue)>, key: &String) -> (r: Option<usize>)
    ensures
        match r {
            Some(k) => k < fields.len() && key_index(fields_view(fields@), key@) == k,
            None => key_index(fields_view(fields@), key@) == -1,
        },
{
    let ghost model = fields_view(fields@);
    let mut i: usize = fields.len();
    while i > 0
        invariant
            i <= fields.len(),
            model == fields_view(fields@),
            forall|j: int| i <= j < fields.len() ==> (#[trigger] model[j]).key != key@,
        decreases i,
    {
        i -= 1;
        if fields[i].0 == *key {
            proof {
                lemma_key_index(model, key@);
                assert(model[i as int].key == key@);
            }
            return Some(i);
        }
    }
    proof {
        lemma_key_index(model, key@);
    }
    None
}

/// The text held by the field `name` of an object, where that field holds a
/// string. The last field of that name counts.
pub open spec fn string_field(v: Json, name: Seq<char>) -> Option<Seq<char>> {
    match v {
        Json::Object(fields) => {
            let k = key_index(fields, name);
            if k >= 0 && fields[k].value is String {
                Some(fields[k].value->String_0)
            } else {
                None
            }
        },
        _ => None,
    }
}

/// Reads the field `name` of an object where it holds a string.
pub fn get_string_field<'a>(v: &'a JsonValue, name: &String) -> (r: Option<&'a String>)
    ensures
        match r {
            Some(s) => string_field(v@, name@) == Some(s@),
            None => string_field(v@, name@) is None,
        },
{
    match v {
        JsonValue::Object(fields) => {
            proof {
                lemma_view_object(*fields);
            }
            match find_key(fields, name) {
                Some(k) => match &fields[k].1 {
                    JsonValue::String(s) => Some(s),
                    _ => None,
                },
                None => None,
            }
        },
        _ => None,
    }
}

fn is_zero(text: &String) -> (r: bool)
    ensures
        r == is_zero_text(text@),
{
    proof {
        reveal_strlit("0.0");
        reveal_strlit("-0.0");
        assert("0.0"@ =~= seq!['0', '.', '0']);
        assert("-0.0"@ =~= seq!['-', '0', '.', '0']);
    }
    let plus = String::from_str("0.0");
    let minus = String::from_str("-0.0");
    *text == plus || *text == minus
}

/// Compares two numbers.
pub fn numbers_equal(a: &JsonNumber, b: &JsonNumber) -> (r: bool)
    ensures
        r == num_eq(a@, b@),
{
    match a {
        JsonNumber::PosInt(x) => match b {
            JsonNumber::PosInt(y) => *x == *y,
            JsonNumber::NegInt(y) => *y >= 0 && *x == *y as u64,
            JsonNumber::Float(_) => false,
        },
        JsonNumber::NegInt(x) => match b {
            JsonNumber::PosInt(y) => *x >= 0 && *x as u64 == *y,
            JsonNumber::NegInt(y) => *x == *y,
            JsonNumber::Float(_) => false,
        },
        JsonNumber::Float(s) => match b {
            JsonNumber::Float(t) => *s == *t || (is_zero(s) && is_zero(t)),
            _ => false,
        },
    }
}

/// Compares two JSON values structurally.
pub fn values_equal(a: &JsonValue, b: &JsonValue) -> (r: bool)
    ensures
        r == json_eq(a@, b@),
    decreases a,
{
    match a {
        JsonValue::Null => match b {
            JsonValue::Null => true,
            _ => false,
        },
        JsonValue::Bool(x) => match b {
            JsonValue::Bool(y) => *x == *y,
            _ => false,
        },
        JsonValue::Number(x) => match b {
            JsonValue::Number(y) => numbers_equal(x, y),
            _ => false,
        },
        JsonValue::String(x) => match b {
            JsonValue::String(y) => *x == *y,
            _ => false,
        },
        JsonValue::Array(xs) => match b {
            JsonValue::Array(ys) => {
                proof {
                    lemma_view_array(*xs);
                    lemma_view_array(*ys);
                }
                arrays_equal(xs, ys)
            },
            _ => false,
        },
        JsonValue::Object(fs) => match b {
            JsonValue::Object(gs) => {
                proof {
                    lemma_view_object(*fs);
                    lemma_view_object(*gs);
                }
                objects_equal(fs, gs)
            },
            _ => false,
        },
    }
}

fn arrays_equal(xs: &Vec<JsonValue>, ys: &Vec<JsonValue>) -> (r: bool)
    ensures
        r == json_eq(Json::Array(items_view(xs@)), Json::Array(items_view(ys@))),
    decreases xs,
{
    if xs.len() != ys.len() {
        return false;
    }
    let ghost xv = items_view(xs@);
    let ghost yv = items_view(ys@);
    let mut i: usize = 0;
    while i < xs.len()
        invariant
            i <= xs.len(),
            xs.len() == ys.len(),
            xv == items_view(xs@),
            yv == items_view(ys@),
            forall|j: int| 0 <= j < i ==> json_eq(#[trigger] xv[j], yv[j]),
        decreases xs.len() - i,
    {
        if !values_equal(&xs[i], &ys[i]) {
            assert(!json_eq(xv[i as int], yv[i as int]));
            return false;
        }
        i += 1;
    }
    true
}

fn objects_equal(fs: &Vec<(String, JsonValue)>, gs: &Vec<(String, JsonValue)>) -> (r: bool)
    ensures
        r == json_eq(Json::Object(fields_view(fs@)), Json::Object(fields_view(gs@))),
    decreases fs,
{
    let ghost fv = fields_view(fs@);
    let ghost gv = fields_view(gs@);
    let mut i: usize = 0;
    while i < fs.len()
        invariant
            i <= fs.len(),
            fv == fields_view(fs@),
            gv == fields_view(gs@),
            forall|k: int|
                0 <= k < i ==> key_index(gv, (#[trigger] fv[k]).key) >= 0 && json_eq(
                    fv[k].value,
                    gv[key_index(gv, fv[k].key)].value,
                ),
        decreases fs.len() - i,
    {
        match find_key(gs, &fs[i].0) {
            Some(j) => {
                if !values_equal(&fs[i].1, &gs[j].1) {
                    assert(!json_eq(fv[i as int].value, gv[key_index(gv, fv[i as int].key)].value));
                    return false;
                }
            },
            None => {
                assert(key_index(gv, fv[i as int].key) < 0);
                return false;
            },
        }
        i += 1;
    }
    let mut j: usize = 0;
    while j < gs.len()
        invariant
            j <= gs.len(),
            fv == fields_view(fs@),
            gv == fields_view(gs@),
            forall|k: int|
                0 <= k < fv.len() ==> key_index(gv, (#[trigger] fv[k]).key) >= 0 && json_eq(
                    fv[k].value,
                    gv[key_index(gv, fv[k].key)].value,
                ),
            forall|k: int| 0 <= k < j ==> key_index(fv, (#[trigger] gv[k]).key) >= 0,
        decreases gs.len() - j,
    {
        if find_key(fs, &gs[j].0).is_none() {
            assert(key_index(fv, gv[j as int].key) < 0);
            return false;
        }
        j += 1;
    }
    true
}

impl Clone for JsonNumber {
    fn clone(&self) -> (r: Self)
        ensures
            r@ == self@,
    {
        match self {
            JsonNumber::PosInt(u) => JsonNumber::PosInt(*u),
            JsonNumber::NegInt(i) => JsonNumber::NegInt(*i),
            JsonNumber::Float(t) => JsonNumber::Float(t.clone()),
        }
    }
}

impl Clone for JsonValue {
    fn clone(&self) -> (r: Self)
        ensures
            r@ == self@,
        decreases self,
    {
        match self {
            JsonValue::Null => JsonValue::Null,
            JsonValue::Bool(b) => JsonValue::Bool(*b),
            JsonValue::Number(n) => JsonValue::Number(n.clone()),
            JsonValue::String(s) => JsonValue::String(s.clone()),
            JsonValue::Array(items) => {
                let copy = clone_items(items);
                proof {
                    lemma_view_array(*items);
                    lemma_view_array(copy);
                }
                JsonValue::Array(copy)
            },
            JsonValue::Object(fields) => {
                let copy = clone_fields(fields);
                proof {
                    lemma_view_object(*fields);
                    lemma_view_object(copy);
                }
                JsonValue::Object(copy)
            },
        }
    }
}

fn clone_items(items: &Vec<JsonValue>) -> (copy: Vec<JsonValue>)
    ensures
        items_view(copy@) == items_view(items@),
    decreases items,
{
    let mut copy: Vec<JsonValue> = Vec::new();
    let mut i: usize = 0;
    while i < items.len()
        invariant
            i <= items.len(),
            copy.len() == i,
            forall|j: int| 0 <= j < i ==> (#[trigger] copy@[j])@ == items@[j]@,
        decreases items.len() - i,
    {
        copy.push(items[i].clone());
        i += 1;
    }
    assert(items_view(copy@) =~= items_view(items@));
    copy
}

fn clone_fields(fields: &Vec<(String, JsonValue)>) -> (copy: Vec<(String, JsonValue)>)
    ensures
        fields_view(copy@) == fields_view(fields@),
    decreases fields,
{
    let mut copy: Vec<(String, JsonValue)> = Vec::new();
    let mut i: usize = 0;
    while i < fields.len()
        invariant
            i <= fields.len(),
            copy.len() == i,
            forall|j: int|
                0 <= j < i ==> (#[trigger] copy@[j]).0@ == fields@[j].0@ && copy@[j].1@
                    == fields@[j].1@,
        decreases fields.len() - i,
    {
        copy.push((fields[i].0.clone(), fields[i].1.clone()));
        i += 1;
    }
    assert(fields_view(copy@) =~= fields_view(fields@));
    copy
}

fn keys_are_distinct(fields: &Vec<(String, JsonValue)>) -> (r: bool)
    ensures
        r == distinct_keys(fields_view(fields@)),
{
    let ghost model = fields_view(fields@);
    let mut j: usize = 0;
    while j < fields.len()
        invariant
            j <= fields.len(),
            model == fields_view(fields@),
            forall|a: int, b: int| 0 <= a < b < j ==> (#[trigger] model[a]).key != (#[trigger] model[b]).key,
        decreases fields.len() - j,
    {
        let mut i: usize = 0;
        while i < j
            invariant
                i <= j < fields.len(),
                model == fields_view(fields@),
                forall|a: int| 0 <= a < i ==> (#[trigger] model[a]).key != model[j as int].key,
            decreases j - i,
        {
            if fields[i].0 == fields[j].0 {
                assert(model[i as int].key == model[j as int].key);
                return false;
            }
            i += 1;
        }
        j += 1;
    }
    true
}

impl JsonValue {
    /// Whether no object in the value, at any depth, has a key twice.
    pub fn has_distinct_keys(&self) -> (r: bool)
        ensures
            r == self@.wf(),
        decreases self, 1nat,
    {
        match self {
            JsonValue::Array(items) => {
                proof {
                    lemma_view_array(*items);
                    assert(self@->Array_0 == items_view(items@));
                }
                items_have_distinct_keys(items)
            },
            JsonValue::Object(fields) => {
                proof {
                    lemma_view_object(*fields);
                    assert(self@->Object_0 == fields_view(fields@));
                }
                keys_are_distinct(fields) && fields_have_distinct_keys(fields)
            },
            _ => true,
        }
    }
}

fn items_have_distinct_keys(items: &Vec<JsonValue>) -> (r: bool)
    ensures
        r == (forall|i: int| 0 <= i < items@.len() ==> (#[trigger] items_view(items@)[i]).wf()),
    decreases items, 0nat,
{
    let ghost model = items_view(items@);
    let mut i: usize = 0;
    while i < items.len()
        invariant
            i <= items.len(),
            model == items_view(items@),
            forall|k: int| 0 <= k < i ==> (#[trigger] model[k]).wf(),
        decreases items.len() - i,
    {
        if !items[i].has_distinct_keys() {
            assert(!model[i as int].wf());
            return false;
        }
        i += 1;
    }
    true
}

fn fields_have_distinct_keys(fields: &Vec<(String, JsonValue)>) -> (r: bool)
    ensures
        r == (forall|i: int|
            0 <= i < fields@.len() ==> (#[trigger] fields_view(fields@)[i]).value.wf()),
    decreases fields, 0nat,
{
    let ghost model = fields_view(fields@);
    let mut i: usize = 0;
    while i < fields.len()
        invariant
            i <= fields.len(),
            model == fields_view(fields@),
            forall|k: int| 0 <= k < i ==> (#[trigger] model[k]).value.wf(),
        decreases fields.len() - i,
    {
        if !fields[i].1.has_distinct_keys() {
            assert(!model[i as int].value.wf());
            return false;
        }
        i += 1;
    }
    true
}

} // verus!
