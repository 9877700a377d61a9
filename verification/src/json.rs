//! A JSON document model that holds what the seeding logic reads of a parsed
//! JSON value.

use vstd::prelude::*;

use crate::error::SeedError;
use serde_json::Value;

verus! {

/// A JSON number as the JSON parser stores it: a non-negative integer, a
/// negative integer, or a finite float kept as its IEEE-754 bit pattern.
#[derive(Clone, Copy, Debug, PartialEq, Eq, Structural)]
pub enum JsonNumber {
    PosInt(u64),
    NegInt(i64),
    Float(u64),
}

/// How a number is written out: as a signed integer where it fits an `i64`,
/// else as an unsigned integer, else as a float (its IEEE-754 bits).
#[derive(Clone, Copy, Debug, PartialEq, Eq, Structural)]
pub enum NumberEncoding {
    Signed(i64),
    Unsigned(u64),
    FloatBits(u64),
}

/// A parsed JSON value. An object holds its entries in key order.
#[derive(Debug)]
pub enum JsonValue {
    Null,
    Bool(bool),
    Number(JsonNumber),
    String(String),
    Array(Vec<JsonValue>),
    Object(Vec<(String, JsonValue)>),
}

/// No key occurs twice among the entries.
pub open spec fn keys_distinct<V>(entries: Seq<(String, V)>) -> bool {
    forall|i: int, j: int|
        0 <= i < entries.len() && 0 <= j < entries.len() && i != j ==> #[trigger] entries[i].0@
            != #[trigger] entries[j].0@
}

/// Every object in the value, at any depth, has distinct keys.
pub open spec fn json_wf(v: JsonValue) -> bool
    decreases v,
{
    match v {
        JsonValue::Array(items) => forall|i: int| 0 <= i < items.len() ==> json_wf(#[trigger] items@[i]),
        JsonValue::Object(entries) => keys_distinct(entries@) && forall|i: int|
            0 <= i < entries.len() ==> json_wf(#[trigger] entries@[i].1),
        _ => true,
    }
}

impl JsonNumber {
    /// The number as an `i64`, where it is an integer in that range.
    pub open spec fn spec_as_i64(&self) -> Option<i64> {
        match *self {
            JsonNumber::PosInt(u) => if u <= i64::MAX {
                Some(u as i64)
            } else {
                None
            },
            JsonNumber::NegInt(i) => Some(i),
            JsonNumber::Float(_) => None,
        }
    }

    /// The number as a `u64`, where it is a non-negative integer.
    pub open spec fn spec_as_u64(&self) -> Option<u64> {
        match *self {
            JsonNumber::PosInt(u) => Some(u),
            _ => None,
        }
    }

    /// The integer a number denotes, where it is an integer.
    pub open spec fn integer_value(&self) -> Option<int> {
        match *self {
            JsonNumber::PosInt(u) => Some(u as int),
            JsonNumber::NegInt(i) => Some(i as int),
            JsonNumber::Float(_) => None,
        }
    }

    /// How the number is written out: an `i64` is preferred, then a `u64`,
    /// then a float. An integer keeps its value.
    pub fn encoding(&self) -> (e: NumberEncoding)
        ensures
            match e {
                NumberEncoding::Signed(i) => self.spec_as_i64() == Some(i) && self.integer_value()
                    == Some(i as int),
                NumberEncoding::Unsigned(u) => self.spec_as_i64() is None && self.spec_as_u64()
                    == Some(u) && self.integer_value() == Some(u as int),
                NumberEncoding::FloatBits(b) => *self == JsonNumber::Float(b),
            },
    {
        match self.as_i64() {
            Some(i) => NumberEncoding::Signed(i),
            None => match self {
                JsonNumber::PosInt(u) => NumberEncoding::Unsigned(*u),
                JsonNumber::NegInt(i) => NumberEncoding::Signed(*i),
                JsonNumber::Float(b) => NumberEncoding::FloatBits(*b),
            },
        }
    }

    /// The number as an `i64`, where it is an integer in that range.
    #[verifier::when_used_as_spec(spec_as_i64)]
    pub fn as_i64(&self) -> (r: Option<i64>)
        ensures
            r == self.spec_as_i64(),
    {
        match self {
            JsonNumber::PosInt(u) => if *u <= 9223372036854775807u64 {
                Some(*u as i64)
            } else {
                None
            },
            JsonNumber::NegInt(i) => Some(*i),
            JsonNumber::Float(_) => None,
        }
    }

    /// The number as a `u64`, where it is a non-negative integer.
    #[verifier::when_used_as_spec(spec_as_u64)]
    pub fn as_u64(&self) -> (r: Option<u64>)
        ensures
            r == self.spec_as_u64(),
    {
        match self {
            JsonNumber::PosInt(u) => Some(*u),
            _ => None,
        }
    }
}

/// The value of the first entry of `entries[i..]` whose key is `key`.
pub open spec fn lookup_from(entries: Seq<(String, JsonValue)>, key: Seq<char>, i: int) -> Option<
    JsonValue,
>
    decreases entries.len() - i,
{
    if 0 <= i < entries.len() {
        if entries[i].0@ == key {
            Some(entries[i].1)
        } else {
            lookup_from(entries, key, i + 1)
        }
    } else {
        None
    }
}

/// The value under `key` of an object; `None` for a missing key or a value
/// that is not an object.
pub open spec fn json_get(v: JsonValue, key: Seq<char>) -> Option<JsonValue> {
    match v {
        JsonValue::Object(entries) => lookup_from(entries@, key, 0),
        _ => None,
    }
}

impl JsonValue {
    /// The value under `key`, where `self` is an object that has the key.
    pub fn get(&self, key: &str) -> (r: Option<&JsonValue>)
        ensures
            match json_get(*self, key@) {
                Some(x) => r == Some(&x),
                None => r is None,
            },
    {
        match self {
            JsonValue::Object(entries) => {
                let wanted = String::from_str(key);
                let mut i: usize = 0;
                #[verifier::loop_isolation(false)]
                while i < entries.len()
                    invariant
                        i <= entries.len(),
                        wanted@ == key@,
                        lookup_from(entries@, key@, 0) == lookup_from(entries@, key@, i as int),
                    decreases entries.len() - i,
                {
                    if entries[i].0 == wanted {
                        return Some(&entries[i].1);
                    }
                    i += 1;
                }
                None
            },
            _ => None,
        }
    }

    /// The text of a string value.
    pub fn as_str(&self) -> (r: Option<&str>)
        ensures
            match self {
                JsonValue::String(s) => r matches Some(t) && t@ == s@,
                _ => r is None,
            },
    {
        match self {
            JsonValue::String(s) => Some(s.as_str()),
            _ => None,
        }
    }

    /// The integer of a number value that fits an `i64`.
    pub fn as_i64(&self) -> (r: Option<i64>)
        ensures
            r == match self {
                JsonValue::Number(n) => n.spec_as_i64(),
                _ => None,
            },
    {
        match self {
            JsonValue::Number(n) => n.as_i64(),
            _ => None,
        }
    }

    /// The elements of an array value.
    pub fn as_array(&self) -> (r: Option<&Vec<JsonValue>>)
        ensures
            match self {
                JsonValue::Array(items) => r == Some(items),
                _ => r is None,
            },
    {
        match self {
            JsonValue::Array(items) => Some(items),
            _ => None,
        }
    }
}

/// `serde_json::Value`, the tree serde_json parses a JSON text into.
#[verifier::external_type_specification]
#[verifier::external_body]
pub struct ExSerdeValue(serde_json::Value);

/// The document serde_json reads from a JSON text, in this model; where it
/// rejects the text, the text of its error.
pub uninterp spec fn json_document(text: Seq<char>) -> Result<JsonValue, Seq<char>>;

/// Copies a `serde_json::Value` into the model, node for node: a number goes
/// by `as_u64`, else `as_i64`, else the bits of `as_f64`; an object's entries
/// in the map's order. Used only inside `parse_json_document`, whose contract
/// covers it; it claims nothing of its own.
#[verifier::external_body]
fn json_from_serde(v: &Value) -> JsonValue {
    match v {
        Value::Null => JsonValue::Null,
        Value::Bool(b) => JsonValue::Bool(*b),
        Value::Number(n) => JsonValue::Number(match (n.as_u64(), n.as_i64()) {
            (Some(u), _) => JsonNumber::PosInt(u),
            (None, Some(i)) => JsonNumber::NegInt(i),
            _ => JsonNumber::Float(n.as_f64().unwrap_or_default().to_bits()),
        }),
        Value::String(s) => JsonValue::String(s.clone()),
        Value::Array(a) => JsonValue::Array(a.iter().map(json_from_serde).collect()),
        Value::Object(m) => JsonValue::Object(
            m.iter().map(|(k, x)| (k.clone(), json_from_serde(x))).collect(),
        ),
    }
}

/// Calls `serde_json::from_str::<serde_json::Value>` on the text and copies
/// the tree into the model; on failure it renders serde_json's error with
/// `to_string`. The contract claims that the result is a function of the text,
/// named `json_document`, and that an object never holds a key twice
/// (serde_json's `Map` is a `BTreeMap`, or an `IndexMap` with the
/// `preserve_order` feature; both keep one value per key).
#[verifier::external_body]
pub fn parse_json_document(text: &str) -> (r: Result<JsonValue, String>)
    ensures
        match r {
            Ok(v) => json_document(text@) == Ok::<JsonValue, Seq<char>>(v) && json_wf(v),
            Err(m) => json_document(text@) == Err::<JsonValue, Seq<char>>(m@),
        },
{
    match serde_json::from_str::<serde_json::Value>(text) {
        Ok(v) => Ok(json_from_serde(&v)),
        Err(e) => Err(e.to_string()),
    }
}

/// The items of a parsed document, given what the JSON parser made of the
/// text: its array's elements; the parser's error, reported as invalid JSON;
/// or the refusal of a root that is no array.
pub fn items_from_parse(parsed: Result<JsonValue, String>) -> (r: Result<Vec<JsonValue>, SeedError>)
    ensures
        match parsed {
            Err(m) => r matches Err(SeedError::JsonParse(d)) && d@ == m@,
            Ok(JsonValue::Array(items)) => r matches Ok(v) && v == items,
            Ok(_) => r matches Err(SeedError::NotAJsonArray),
        },
{
    match parsed {
        Err(m) => Err(SeedError::JsonParse(m)),
        Ok(JsonValue::Array(items)) => Ok(items),
        Ok(_) => Err(SeedError::NotAJsonArray),
    }
}

/// Reads the items of a JSON file's text: it must be valid JSON whose root is
/// an array. Every object among the items has distinct keys.
pub fn load_items(text: &str) -> (r: Result<Vec<JsonValue>, SeedError>)
    ensures
        match json_document(text@) {
            Err(m) => r matches Err(SeedError::JsonParse(d)) && d@ == m,
            Ok(JsonValue::Array(items)) => r matches Ok(v) && v == items,
            Ok(_) => r matches Err(SeedError::NotAJsonArray),
        },
        r matches Ok(v) ==> forall|i: int| 0 <= i < v@.len() ==> json_wf(#[trigger] v@[i]),
{
    items_from_parse(parse_json_document(text))
}


proof fn lemma_lookup_reaches(entries: Seq<(String, JsonValue)>, key: Seq<char>, i: int, k: int)
    requires
        0 <= i <= k <= entries.len(),
        forall|j: int| i <= j < k ==> #[trigger] entries[j].0@ != key,
    ensures
        lookup_from(entries, key, i) == lookup_from(entries, key, k),
    decreases k - i,
{
    if i < k {
        lemma_lookup_reaches(entries, key, i + 1, k);
    }
}

/// Looking a key up in an object finds the value of an entry with that key
/// (in an object with distinct keys, the one such entry), and finds nothing
/// where no entry has the key; in anything else it finds nothing.
pub proof fn lemma_get_finds_the_entry(v: JsonValue, key: Seq<char>, k: int)
    ensures
        !(v is Object) ==> json_get(v, key) is None,
        v matches JsonValue::Object(entries) ==> ((forall|j: int|
            0 <= j < entries.len() ==> #[trigger] entries@[j].0@ != key) ==> json_get(v, key) is None),
        v matches JsonValue::Object(entries) ==> (keys_distinct(entries@) ==> (0 <= k < entries.len()
            && entries@[k].0@ == key ==> json_get(v, key) == Some(entries@[k].1))),
{
    if let JsonValue::Object(entries) = v {
        if forall|j: int| 0 <= j < entries.len() ==> #[trigger] entries@[j].0@ != key {
            lemma_lookup_reaches(entries@, key, 0, entries.len() as int);
        }
        if keys_distinct(entries@) && 0 <= k < entries.len() && entries@[k].0@ == key {
            assert forall|j: int| 0 <= j < k implies #[trigger] entries@[j].0@ != key by {
                assert(entries@[j].0@ != entries@[k].0@);
            }
            lemma_lookup_reaches(entries@, key, 0, k);
        }
    }
}


/// A number reads as an `i64` exactly when it is an integer in the range of
/// `i64`, and then as that integer.
pub proof fn lemma_as_i64_keeps_the_integer(n: JsonNumber)
    ensures
        n.spec_as_i64() matches Some(i) ==> n.integer_value() == Some(i as int),
        n.integer_value() matches Some(v) ==> (i64::MIN <= v <= i64::MAX ==> n.spec_as_i64() is Some),
        n.integer_value() is None ==> n.spec_as_i64() is None,
{
}

} // verus!
