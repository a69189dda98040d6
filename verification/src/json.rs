//! Reading and writing JSON, through `serde_json`.

use vstd::prelude::*;

use serde_json::Value;

use crate::lists::first_place;

verus! {

/// A JSON value, declared so that it can be carried about.
#[verifier::external_type_specification]
#[verifier::external_body]
pub struct ExValue(serde_json::Value);

/// What a JSON value holds.
pub enum Json {
    Null,
    Bool(bool),
    /// A whole number from zero
    Natural(u64),
    /// A whole number below zero
    Negative(i64),
    /// A number that is held as a fraction
    Fraction,
    Text(Seq<char>),
    List(Seq<Json>),
    /// The entries, no key twice, in the order in which they are walked
    Object(Seq<(Seq<char>, Json)>),
}

/// What a [`Value`] holds.
pub uninterp spec fn json(v: Value) -> Json;

/// What `serde_json` reads in a text, if the text is JSON.
pub uninterp spec fn parsed(s: Seq<char>) -> Option<Json>;

/// What a reference to a value holds.
pub open spec fn held(v: Option<&Value>) -> Option<Json> {
    match v {
        Some(x) => Some(json(*x)),
        None => None,
    }
}

/// The condition of standing under a key.
pub open spec fn keyed(key: Seq<char>) -> spec_fn((Seq<char>, Json)) -> bool {
    |e: (Seq<char>, Json)| e.0 == key
}

impl Json {
    /// The value under a key of an object.
    pub open spec fn get(self, key: Seq<char>) -> Option<Json> {
        match self {
            Json::Object(entries) => {
                let i = first_place(entries, 0, keyed(key));
                if i < entries.len() {
                    Some(entries[i as int].1)
                } else {
                    None
                }
            },
            _ => None,
        }
    }

    /// The text, if it is one.
    pub open spec fn as_text(self) -> Option<Seq<char>> {
        match self {
            Json::Text(s) => Some(s),
            _ => None,
        }
    }

    /// The whole number from zero, if it is one.
    pub open spec fn as_natural(self) -> Option<u64> {
        match self {
            Json::Natural(n) => Some(n),
            _ => None,
        }
    }

    /// The whole number, if it is one of 64 bits with a sign.
    pub open spec fn as_whole(self) -> Option<i64> {
        match self {
            Json::Natural(n) => if n <= i64::MAX {
                Some(n as i64)
            } else {
                None
            },
            Json::Negative(n) => Some(n),
            _ => None,
        }
    }
}

/// Reads a text with `serde_json::from_str`, as a value of any shape. The
/// result, or its absence where the text is not JSON, is that of the text.
#[verifier::external_body]
pub(crate) fn parse(s: &str) -> (r: Option<Value>)
    ensures
        parsed(s@) == (match r {
            Some(v) => Some(json(v)),
            None => None,
        }),
{
    serde_json::from_str::<Value>(s).ok()
}

/// `Value::get` with a key: the value that stands under it in an object, and
/// nothing for any other value.
#[verifier::external_body]
pub(crate) fn get<'a>(v: &'a Value, key: &str) -> (r: Option<&'a Value>)
    ensures
        held(r) == json(*v).get(key@),
{
    v.get(key)
}

/// `Value::as_str`: the text of a value that is one.
#[verifier::external_body]
pub(crate) fn as_text(v: &Value) -> (r: Option<&str>)
    ensures
        (match r {
            Some(s) => Some(s@),
            None => None,
        }) == json(*v).as_text(),
{
    v.as_str()
}

/// `Value::as_u64`: the number of a value that is a whole one from zero.
#[verifier::external_body]
pub(crate) fn as_natural(v: &Value) -> (r: Option<u64>)
    ensures
        r == json(*v).as_natural(),
{
    v.as_u64()
}

/// `Value::as_i64`: the number of a value that is a whole one and fits.
#[verifier::external_body]
pub(crate) fn as_whole(v: &Value) -> (r: Option<i64>)
    ensures
        r == json(*v).as_whole(),
{
    v.as_i64()
}

/// `Value::as_array`: the items of a value that is a list.
#[verifier::external_body]
pub(crate) fn as_list(v: &Value) -> (r: Option<&Vec<Value>>)
    ensures
        json(*v) is List <==> r is Some,
        r matches Some(items) ==> json(*v)->List_0 == items@.map_values(|x: Value| json(x)),
{
    v.as_array()
}

/// `Value::as_object`, with `Map::iter` over what it gives: the entries of a
/// value that is an object, in the order in which the map is walked.
#[verifier::external_body]
pub(crate) fn entries(v: &Value) -> (r: Option<Vec<(&String, &Value)>>)
    ensures
        json(*v) is Object <==> r is Some,
        r matches Some(es) ==> json(*v)->Object_0 == es@.map_values(
            |e: (&String, &Value)| (e.0@, json(*e.1)),
        ),
{
    v.as_object().map(|m| m.iter().collect())
}

/// A simple value to be written.
#[derive(Debug)]
pub enum Scalar {
    Null,
    Whole(i64),
    Text(String),
}

/// The model of a [`Scalar`].
pub enum ScalarModel {
    Null,
    Whole(i64),
    Text(Seq<char>),
}

impl DeepView for Scalar {
    type V = ScalarModel;

    open spec fn deep_view(&self) -> ScalarModel {
        match self {
            Scalar::Null => ScalarModel::Null,
            Scalar::Whole(n) => ScalarModel::Whole(*n),
            Scalar::Text(s) => ScalarModel::Text(s@),
        }
    }
}

/// What `serde_json` writes for an object with these entries.
pub uninterp spec fn object_text(entries: Seq<(Seq<char>, ScalarModel)>) -> Seq<char>;

/// Writes an object with `Value::to_string`, after its entries were put into a
/// `Map` one by one. The text is that of the entries.
#[verifier::external_body]
pub(crate) fn write_object(entries: Vec<(String, Scalar)>) -> (r: String)
    ensures
        r@ == object_text(entries.deep_view()),
{
    let fields = entries.into_iter().map(|(k, v)| match v {
        Scalar::Null => (k, Value::Null),
        Scalar::Whole(n) => (k, Value::from(n)),
        Scalar::Text(s) => (k, Value::String(s)),
    });
    Value::Object(fields.collect()).to_string()
}

/// What an object holds under a key is the value of the first entry with that key;
/// what is no object holds nothing.
pub proof fn law_entry_is_found(j: Json, key: Seq<char>, v: Json)
    ensures
        j.get(key) == Some(v) <==> j is Object && exists|i: int|
            0 <= i < j->Object_0.len() && (#[trigger] j->Object_0[i]) == (key, v) && forall|k: int|
                0 <= k < i ==> (#[trigger] j->Object_0[k]).0 != key,
{
    if j is Object {
        let entries = j->Object_0;
        let p = keyed(key);
        let at = first_place(entries, 0, p);
        crate::lists::law_first_place(entries, 0, p);
        if at < entries.len() {
            assert(p(entries[at as int]));
            assert forall|k: int| 0 <= k < at implies (#[trigger] entries[k]).0 != key by {
                assert(!p(entries[k]));
            }
            if j.get(key) == Some(v) {
                assert(entries[at as int] == (key, v));
            }
        }
        if exists|i: int|
            0 <= i < entries.len() && (#[trigger] entries[i]) == (key, v) && forall|k: int|
                0 <= k < i ==> (#[trigger] entries[k]).0 != key {
            let i = choose|i: int|
                0 <= i < entries.len() && (#[trigger] entries[i]) == (key, v) && forall|k: int|
                    0 <= k < i ==> (#[trigger] entries[k]).0 != key;
            assert(p(entries[i]));
            assert(at < entries.len()) by {
                if at >= entries.len() {
                    assert(!p(entries[i]));
                }
            }
            if i < at {
                assert(!p(entries[i]));
            }
            if at < i {
                assert(entries[at as int].0 != key);
            }
        }
    }
}

} // verus!
