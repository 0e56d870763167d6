use vstd::prelude::*;
use crate::text::{chars_of, copy_str, parse_u64, parse_u64_spec, str_eq};

verus! {

/// A JSON number as the logic reads it: a non-negative integer, a negative integer, or a number
/// with a fraction or exponent (whose value the logic never reads).
#[derive(Debug, Clone, Copy, PartialEq, Eq, Structural)]
pub enum JsonNumber {
    PosInt(u64),
    NegInt(i64),
    Float,
}

/// A JSON value. Object entries keep their order and have distinct keys.
#[derive(Debug, PartialEq)]
pub enum JsonValue {
    Null,
    Bool(bool),
    Number(JsonNumber),
    String(String),
    Array(Vec<JsonValue>),
    Object(Vec<(String, JsonValue)>),
}

/// The model of a JSON value: texts as characters.
pub enum Json {
    Null,
    Bool(bool),
    Number(JsonNumber),
    Str(Seq<char>),
    Array(Seq<Json>),
    Object(Seq<(Seq<char>, Json)>),
}

/// The model of a JSON value.
pub open spec fn jv(v: JsonValue) -> Json
    decreases v,
{
    match v {
        JsonValue::Null => Json::Null,
        JsonValue::Bool(b) => Json::Bool(b),
        JsonValue::Number(n) => Json::Number(n),
        JsonValue::String(s) => Json::Str(s@),
        JsonValue::Array(items) => Json::Array(jvs(items@)),
        JsonValue::Object(entries) => Json::Object(jentries(entries@)),
    }
}

/// The models of a sequence of JSON values.
pub open spec fn jvs(v: Seq<JsonValue>) -> Seq<Json>
    decreases v,
{
    if v.len() == 0 {
        Seq::empty()
    } else {
        jvs(v.subrange(0, v.len() - 1)).push(jv(v[v.len() - 1]))
    }
}

/// The models of a sequence of object entries.
pub open spec fn jentries(v: Seq<(String, JsonValue)>) -> Seq<(Seq<char>, Json)>
    decreases v,
{
    if v.len() == 0 {
        Seq::empty()
    } else {
        jentries(v.subrange(0, v.len() - 1)).push((v[v.len() - 1].0@, jv(v[v.len() - 1].1)))
    }
}

/// The model of an optional JSON value; no value reads as `null`.
pub open spec fn jo(v: Option<&JsonValue>) -> Json {
    match v {
        Some(x) => jv(*x),
        None => Json::Null,
    }
}

/// The value under the first entry with `key`, if any.
pub open spec fn entry_value(entries: Seq<(Seq<char>, Json)>, key: Seq<char>) -> Option<Json>
    decreases entries.len(),
{
    if entries.len() == 0 {
        None
    } else if entries[0].0 == key {
        Some(entries[0].1)
    } else {
        entry_value(entries.subrange(1, entries.len() as int), key)
    }
}

/// The member `key` of a JSON value: `null` unless it is an object with that key.
pub open spec fn member(j: Json, key: Seq<char>) -> Json {
    match j {
        Json::Object(entries) => match entry_value(entries, key) {
            Some(x) => x,
            None => Json::Null,
        },
        _ => Json::Null,
    }
}

/// A JSON string's text.
pub open spec fn as_str(j: Json) -> Option<Seq<char>> {
    match j {
        Json::Str(s) => Some(s),
        _ => None,
    }
}

/// A JSON number that is a non-negative integer.
pub open spec fn as_u64(j: Json) -> Option<u64> {
    match j {
        Json::Number(JsonNumber::PosInt(n)) => Some(n),
        _ => None,
    }
}

/// A JSON number that is an integer fitting in `i64`.
pub open spec fn as_i64(j: Json) -> Option<i64> {
    match j {
        Json::Number(JsonNumber::PosInt(n)) => if n <= i64::MAX {
            Some(n as i64)
        } else {
            None
        },
        Json::Number(JsonNumber::NegInt(n)) => Some(n),
        _ => None,
    }
}

/// A JSON boolean.
pub open spec fn as_bool(j: Json) -> Option<bool> {
    match j {
        Json::Bool(b) => Some(b),
        _ => None,
    }
}

/// A JSON array's items.
pub open spec fn as_array(j: Json) -> Option<Seq<Json>> {
    match j {
        Json::Array(items) => Some(items),
        _ => None,
    }
}

/// A snowflake identifier: a JSON string that parses as an unsigned 64-bit number other than
/// 0 (Discord ids are never 0).
pub open spec fn id_of(j: Json) -> Option<u64> {
    match as_str(j) {
        Some(s) => match parse_u64_spec(s) {
            Some(n) => if n > 0 {
                Some(n)
            } else {
                None
            },
            None => None,
        },
        None => None,
    }
}

/// The model of a sequence of values ends with the model of its last value.
pub proof fn lemma_jvs_last(v: Seq<JsonValue>)
    requires
        v.len() > 0,
    ensures
        jvs(v) == jvs(v.drop_last()).push(jv(v.last())),
{
    assert(v.subrange(0, v.len() - 1) =~= v.drop_last());
}

/// The model of a sequence of values has one model per value, in order.
pub proof fn lemma_jvs_index(v: Seq<JsonValue>)
    ensures
        jvs(v).len() == v.len(),
        forall|k: int| 0 <= k < v.len() ==> #[trigger] jvs(v)[k] == jv(v[k]),
    decreases v.len(),
{
    if v.len() > 0 {
        lemma_jvs_index(v.subrange(0, v.len() - 1));
        assert forall|k: int| 0 <= k < v.len() implies #[trigger] jvs(v)[k] == jv(v[k]) by {
            if k < v.len() - 1 {
                assert(v.subrange(0, v.len() - 1)[k] == v[k]);
            }
        }
    }
}

/// The model of a sequence of entries has one model per entry, in order.
pub proof fn lemma_jentries_index(v: Seq<(String, JsonValue)>)
    ensures
        jentries(v).len() == v.len(),
        forall|k: int|
            0 <= k < v.len() ==> #[trigger] jentries(v)[k] == (v[k].0@, jv(v[k].1)),
    decreases v.len(),
{
    if v.len() > 0 {
        lemma_jentries_index(v.subrange(0, v.len() - 1));
        assert forall|k: int| 0 <= k < v.len() implies #[trigger] jentries(v)[k] == (
            v[k].0@,
            jv(v[k].1),
        ) by {
            if k < v.len() - 1 {
                assert(v.subrange(0, v.len() - 1)[k] == v[k]);
            }
        }
    }
}

impl JsonValue {
    /// The member `key`, when this is an object that has it.
    pub fn get(&self, key: &str) -> (r: Option<&JsonValue>)
        ensures
            jo(r) == member(jv(*self), key@),
    {
        match self {
            JsonValue::Object(entries) => {
                proof {
                    lemma_jentries_index(entries@);
                }
                let ghost es = jentries(entries@);
                assert(jv(*self) == Json::Object(es));
                assert(es.subrange(0, es.len() as int) =~= es);
                let mut i: usize = 0;
                while i < entries.len()
                    invariant
                        jv(*self) == Json::Object(es),
                        es == jentries(entries@),
                        es.len() == entries@.len(),
                        forall|k: int|
                            0 <= k < entries@.len() ==> #[trigger] es[k] == (
                                entries@[k].0@,
                                jv(entries@[k].1),
                            ),
                        i <= entries@.len(),
                        entry_value(es, key@) == entry_value(
                            es.subrange(i as int, es.len() as int),
                            key@,
                        ),
                    decreases entries@.len() - i,
                {
                    let ghost rest = es.subrange(i as int, es.len() as int);
                    assert(rest[0] == es[i as int]);
                    if str_eq(entries[i].0.as_str(), key) {
                        assert(entries@[i as int].0@ == key@);
                        assert(rest[0] == (entries@[i as int].0@, jv(entries@[i as int].1)));
                        assert(entry_value(rest, key@) == Some(jv(entries@[i as int].1)));
                        assert(member(jv(*self), key@) == jv(entries@[i as int].1));
                        return Some(&entries[i].1);
                    }
                    assert(rest.subrange(1, rest.len() as int) =~= es.subrange(
                        i + 1,
                        es.len() as int,
                    ));
                    i = i + 1;
                }
                None
            },
            _ => None,
        }
    }
}

/// The member `key` of an optional value; no value reads as `null`.
pub fn at<'a>(v: Option<&'a JsonValue>, key: &str) -> (r: Option<&'a JsonValue>)
    ensures
        jo(r) == member(jo(v), key@),
{
    match v {
        Some(x) => x.get(key),
        None => None,
    }
}

/// The text of a JSON string.
pub fn text_of<'a>(v: Option<&'a JsonValue>) -> (r: Option<&'a str>)
    ensures
        match r {
            Some(s) => as_str(jo(v)) == Some(s@),
            None => as_str(jo(v)) is None,
        },
{
    match v {
        Some(JsonValue::String(s)) => Some(s.as_str()),
        _ => None,
    }
}

/// A copy of the text of a JSON string.
pub fn string_of(v: Option<&JsonValue>) -> (r: Option<String>)
    ensures
        match r {
            Some(s) => as_str(jo(v)) == Some(s@),
            None => as_str(jo(v)) is None,
        },
{
    match text_of(v) {
        Some(s) => Some(String::from_str(s)),
        None => None,
    }
}

/// A non-negative integer.
pub fn u64_of(v: Option<&JsonValue>) -> (r: Option<u64>)
    ensures
        r == as_u64(jo(v)),
{
    match v {
        Some(JsonValue::Number(JsonNumber::PosInt(n))) => Some(*n),
        _ => None,
    }
}

/// An integer that fits in `i64`.
pub fn i64_of(v: Option<&JsonValue>) -> (r: Option<i64>)
    ensures
        r == as_i64(jo(v)),
{
    match v {
        Some(JsonValue::Number(JsonNumber::PosInt(n))) => {
            if *n <= 9223372036854775807u64 {
                Some(*n as i64)
            } else {
                None
            }
        },
        Some(JsonValue::Number(JsonNumber::NegInt(n))) => Some(*n),
        _ => None,
    }
}

/// A boolean.
pub fn bool_of(v: Option<&JsonValue>) -> (r: Option<bool>)
    ensures
        r == as_bool(jo(v)),
{
    match v {
        Some(JsonValue::Bool(b)) => Some(*b),
        _ => None,
    }
}

/// The items of an array.
pub fn array_of<'a>(v: Option<&'a JsonValue>) -> (r: Option<&'a Vec<JsonValue>>)
    ensures
        match r {
            Some(items) => as_array(jo(v)) == Some(jvs(items@)),
            None => as_array(jo(v)) is None,
        },
{
    match v {
        Some(JsonValue::Array(items)) => Some(items),
        _ => None,
    }
}

/// A snowflake identifier: a string that parses as an unsigned 64-bit number other than 0.
pub fn id_from(v: Option<&JsonValue>) -> (r: Option<u64>)
    ensures
        r == id_of(jo(v)),
{
    match text_of(v) {
        Some(s) => {
            let c = chars_of(s);
            match parse_u64(c.as_slice()) {
                Some(n) => if n > 0 {
                    Some(n)
                } else {
                    None
                },
                None => None,
            }
        },
        None => None,
    }
}

/// A copy of a JSON value.
pub fn deep_copy(v: &JsonValue) -> (r: JsonValue)
    ensures
        jv(r) == jv(*v),
    decreases *v,
{
    match v {
        JsonValue::Null => JsonValue::Null,
        JsonValue::Bool(b) => JsonValue::Bool(*b),
        JsonValue::Number(n) => JsonValue::Number(*n),
        JsonValue::String(s) => JsonValue::String(String::from_str(s.as_str())),
        JsonValue::Array(items) => {
            let mut out: Vec<JsonValue> = Vec::new();
            let mut i: usize = 0;
            while i < items.len()
                invariant
                    *v == JsonValue::Array(*items),
                    i <= items@.len(),
                    jvs(out@) == jvs(items@.subrange(0, i as int)),
                decreases items@.len() - i,
            {
                proof {
                    vstd::std_specs::vec::axiom_vec_index_decreases(*items, i as int);
                    assert(*v == JsonValue::Array(*items));
                    assert(decreases_to!(*v => (*v)->Array_0));
                }
                let x = deep_copy(&items[i]);
                proof {
                    lemma_jvs_last(out@.push(x));
                    lemma_jvs_last(items@.subrange(0, i + 1));
                    assert(out@.push(x).drop_last() =~= out@);
                    assert(items@.subrange(0, i + 1).drop_last() =~= items@.subrange(0, i as int));
                }
                out.push(x);
                i = i + 1;
            }
            assert(items@.subrange(0, items@.len() as int) =~= items@);
            JsonValue::Array(out)
        },
        JsonValue::Object(entries) => {
            let mut out: Vec<(String, JsonValue)> = Vec::new();
            let mut i: usize = 0;
            while i < entries.len()
                invariant
                    *v == JsonValue::Object(*entries),
                    i <= entries@.len(),
                    jentries(out@) == jentries(entries@.subrange(0, i as int)),
                decreases entries@.len() - i,
            {
                let k = String::from_str(entries[i].0.as_str());
                proof {
                    vstd::std_specs::vec::axiom_vec_index_decreases(*entries, i as int);
                    assert(*v == JsonValue::Object(*entries));
                    assert(decreases_to!(*v => (*v)->Object_0));
                    assert(decreases_to!(entries[i as int] => entries[i as int].1));
                }
                let x = deep_copy(&entries[i].1);
                proof {
                    let o2 = out@.push((k, x));
                    let e2 = entries@.subrange(0, i + 1);
                    assert(o2.subrange(0, o2.len() - 1) =~= out@);
                    assert(e2.subrange(0, e2.len() - 1) =~= entries@.subrange(0, i as int));
                }
                out.push((k, x));
                i = i + 1;
            }
            assert(entries@.subrange(0, entries@.len() as int) =~= entries@);
            JsonValue::Object(out)
        },
    }
}

/// A JSON string.
pub fn text(s: &str) -> (r: JsonValue)
    ensures
        jv(r) == Json::Str(s@),
{
    JsonValue::String(copy_str(s))
}

/// A JSON non-negative integer.
pub fn number(n: u64) -> (r: JsonValue)
    ensures
        jv(r) == Json::Number(JsonNumber::PosInt(n)),
{
    JsonValue::Number(JsonNumber::PosInt(n))
}

/// An object entry.
pub fn entry(key: &str, value: JsonValue) -> (r: (String, JsonValue))
    ensures
        r.0@ == key@,
        r.1 == value,
{
    (copy_str(key), value)
}

} // verus!
