//! JSON values as the analysis exports hold them, and reading fields out of
//! them with defaults.
use vstd::prelude::*;

verus! {

/// A JSON number, by what it reads as: a signed or an unsigned 64-bit
/// integer (a float reads as neither).
#[derive(Debug, Clone, Copy, PartialEq, Eq, Structural)]
pub struct JsonNumber {
    pub as_i64: Option<i64>,
    pub as_u64: Option<u64>,
}

/// A JSON value; an object's fields in order, each key once.
pub enum JsonValue {
    Null,
    Bool(bool),
    Number(JsonNumber),
    Str(String),
    Array(Vec<JsonValue>),
    Object(Vec<(String, JsonValue)>),
}

/// The value of the first field named `key`.
pub open spec fn first_field(fields: Seq<(String, JsonValue)>, key: Seq<char>) -> Option<JsonValue>
    decreases fields.len(),
{
    if fields.len() == 0 {
        None
    } else {
        match first_field(fields.drop_last(), key) {
            Some(v) => Some(v),
            None => if fields.last().0@ == key {
                Some(fields.last().1)
            } else {
                None
            },
        }
    }
}

/// The field `key` of an object; `Null` when absent or not an object
/// (as indexing a JSON value gives).
pub open spec fn field(v: JsonValue, key: Seq<char>) -> JsonValue {
    match v {
        JsonValue::Object(fields) => match first_field(fields@, key) {
            Some(x) => x,
            None => JsonValue::Null,
        },
        _ => JsonValue::Null,
    }
}

/// The text of a string value.
pub open spec fn as_str(v: JsonValue) -> Option<Seq<char>> {
    match v {
        JsonValue::Str(s) => Some(s@),
        _ => None,
    }
}

/// A number as a signed 64-bit integer.
pub open spec fn as_i64(v: JsonValue) -> Option<i64> {
    match v {
        JsonValue::Number(n) => n.as_i64,
        _ => None,
    }
}

/// A number as an unsigned 64-bit integer.
pub open spec fn as_u64(v: JsonValue) -> Option<u64> {
    match v {
        JsonValue::Number(n) => n.as_u64,
        _ => None,
    }
}

/// The elements of an array, none for other values.
pub open spec fn as_array(v: JsonValue) -> Seq<JsonValue> {
    match v {
        JsonValue::Array(a) => a@,
        _ => seq![],
    }
}

/// The text of a string value, or `default`.
pub open spec fn str_or(v: JsonValue, default: Seq<char>) -> Seq<char> {
    match as_str(v) {
        Some(s) => s,
        None => default,
    }
}

/// The field `key` of `v`.
pub fn get_field<'a>(v: &'a JsonValue, key: &str) -> (r: Option<&'a JsonValue>)
    ensures
        match r {
            Some(x) => *x == field(*v, key@),
            None => field(*v, key@) == JsonValue::Null,
        },
{
    match v {
        JsonValue::Object(fields) => {
            let k = String::from_str(key);
            let mut i: usize = 0;
            while i < fields.len()
                invariant
                    i <= fields@.len(),
                    k@ == key@,
                    *v == JsonValue::Object(*fields),
                    first_field(fields@.take(i as int), key@) is None,
                decreases fields@.len() - i,
            {
                assert(fields@.take(i + 1).drop_last() =~= fields@.take(i as int));
                if fields[i].0 == k {
                    proof {
                        lemma_first_field_stays(fields@, key@, i as int, fields@.len() as int);
                        assert(fields@.take(fields@.len() as int) =~= fields@);
                        assert(first_field(fields@, key@) == Some(fields@[i as int].1));
                        assert(field(*v, key@) == fields@[i as int].1);
                    }
                    return Some(&fields[i].1);
                }
                i = i + 1;
            }
            assert(fields@.take(i as int) =~= fields@);
            None
        },
        _ => None,
    }
}

/// A first match among a prefix stays the first of longer prefixes.
proof fn lemma_first_field_stays(fields: Seq<(String, JsonValue)>, key: Seq<char>, i: int, n: int)
    requires
        0 <= i < n <= fields.len(),
        first_field(fields.take(i), key) is None,
        fields[i].0@ == key,
    ensures
        first_field(fields.take(n), key) == Some(fields[i].1),
    decreases n,
{
    if n > i + 1 {
        lemma_first_field_stays(fields, key, i, n - 1);
        assert(fields.take(n).drop_last() =~= fields.take(n - 1));
    } else {
        assert(fields.take(n).drop_last() =~= fields.take(i));
    }
}

/// The text of field `key` of `v`, if it is a string.
pub fn field_str(v: &JsonValue, key: &str) -> (r: Option<String>)
    ensures
        match r {
            Some(s) => as_str(field(*v, key@)) == Some(s@),
            None => as_str(field(*v, key@)) is None,
        },
{
    match get_field(v, key) {
        Some(JsonValue::Str(s)) => Some(s.clone()),
        _ => None,
    }
}

/// The text of field `key` of `v`, or `default`.
pub fn field_str_or(v: &JsonValue, key: &str, default: &str) -> (r: String)
    ensures
        r@ == str_or(field(*v, key@), default@),
{
    match field_str(v, key) {
        Some(s) => s,
        None => String::from_str(default),
    }
}

/// Field `key` of `v` as a signed 64-bit integer.
pub fn field_i64(v: &JsonValue, key: &str) -> (r: Option<i64>)
    ensures
        r == as_i64(field(*v, key@)),
{
    match get_field(v, key) {
        Some(JsonValue::Number(n)) => n.as_i64,
        _ => None,
    }
}

/// Field `key` of `v` as an unsigned 64-bit integer.
pub fn field_u64(v: &JsonValue, key: &str) -> (r: Option<u64>)
    ensures
        r == as_u64(field(*v, key@)),
{
    match get_field(v, key) {
        Some(JsonValue::Number(n)) => n.as_u64,
        _ => None,
    }
}

/// The elements of field `key` of `v` if it is an array, else none.
pub fn field_array<'a>(v: &'a JsonValue, key: &str) -> (r: &'a [JsonValue])
    ensures
        r@ == as_array(field(*v, key@)),
{
    match get_field(v, key) {
        Some(JsonValue::Array(a)) => a.as_slice(),
        _ => &[],
    }
}

} // verus!
