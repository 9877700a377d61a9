//! Firestore values, and the conversion of JSON into them that turns the
//! timestamp markers into instants.

use vstd::prelude::*;

use crate::error::SeedError;
use crate::json::{json_wf, keys_distinct, JsonNumber, JsonValue};
use crate::timestamp::{current_time, is_clock_reading, parse_naive_utc, parse_rfc3339, naive_utc_instant, rfc3339_instant, Timestamp};

verus! {

/// A value as it is written to Firestore: JSON values, plus instants. An
/// object holds its fields in key order.
#[derive(Debug)]
pub enum FirestoreValue {
    Null,
    Bool(bool),
    Number(JsonNumber),
    String(String),
    Timestamp(Timestamp),
    Array(Vec<FirestoreValue>),
    Object(Vec<(String, FirestoreValue)>),
}

/// The string that stands for the current time.
pub open spec fn now_marker() -> Seq<char> {
    "__fire_ts_now__"@
}

/// The key of the one-entry object that stands for a given date.
pub open spec fn date_marker_key() -> Seq<char> {
    "__fire_ts_from_date__"@
}

/// The naive forms tried, in turn, on a date text that is not RFC 3339, each
/// read as UTC: date and time with a space or a `T` between them, with or
/// without fractional seconds, or without seconds.
pub open spec fn naive_date_formats() -> Seq<Seq<char>> {
    seq![
        "%Y-%m-%d %H:%M:%S"@,
        "%Y-%m-%d %H:%M:%S%.f"@,
        "%Y-%m-%dT%H:%M:%S%.f"@,
        "%Y-%m-%d %H:%M"@,
        "%Y-%m-%dT%H:%M"@,
    ]
}

/// The date text of an object that is a date marker: exactly one entry, whose
/// key is the marker key and whose value is a string.
pub open spec fn date_marker_text(entries: Seq<(String, JsonValue)>) -> Option<Seq<char>> {
    if entries.len() == 1 && entries[0].0@ == date_marker_key() {
        match entries[0].1 {
            JsonValue::String(s) => Some(s@),
            _ => None,
        }
    } else {
        None
    }
}

/// The instant that the first of the naive forms from position `i` on reads
/// from the text.
pub open spec fn naive_instant_from(text: Seq<char>, i: int) -> Option<(i64, u32)>
    decreases naive_date_formats().len() - i,
{
    if 0 <= i < naive_date_formats().len() {
        match naive_utc_instant(text, naive_date_formats()[i]) {
            Ok(instant) => Some(instant),
            Err(_) => naive_instant_from(text, i + 1),
        }
    } else {
        None
    }
}

/// What a date text denotes: the RFC 3339 instant where there is one, else
/// the instant of the first naive form that reads it. Where none does, the
/// error text of the first naive form, `%Y-%m-%d %H:%M:%S`.
pub open spec fn date_outcome(text: Seq<char>) -> Result<(i64, u32), Seq<char>> {
    match rfc3339_instant(text) {
        Some(instant) => Ok(instant),
        None => match naive_utc_instant(text, naive_date_formats()[0]) {
            Ok(instant) => Ok(instant),
            Err(first_error) => match naive_instant_from(text, 1) {
                Some(instant) => Ok(instant),
                None => Err(first_error),
            },
        },
    }
}

/// The first date marker, in document order, whose text denotes no instant:
/// its text and the error text.
pub open spec fn first_date_failure(v: JsonValue) -> Option<(Seq<char>, Seq<char>)>
    decreases v, 0int,
{
    match v {
        JsonValue::Array(items) => items_date_failure(items@, 0),
        JsonValue::Object(entries) => match date_marker_text(entries@) {
            Some(text) => match date_outcome(text) {
                Ok(_) => None,
                Err(details) => Some((text, details)),
            },
            None => entries_date_failure(entries@, 0),
        },
        _ => None,
    }
}

/// The first date failure among `items[i..]`.
pub open spec fn items_date_failure(items: Seq<JsonValue>, i: int) -> Option<(Seq<char>, Seq<char>)>
    decreases items, items.len() - i,
{
    if 0 <= i < items.len() {
        match first_date_failure(items[i]) {
            Some(failure) => Some(failure),
            None => items_date_failure(items, i + 1),
        }
    } else {
        None
    }
}

/// The first date failure among the values of `entries[i..]`.
pub open spec fn entries_date_failure(entries: Seq<(String, JsonValue)>, i: int) -> Option<
    (Seq<char>, Seq<char>),
>
    decreases entries, entries.len() - i,
{
    if 0 <= i < entries.len() {
        match first_date_failure(entries[i].1) {
            Some(failure) => Some(failure),
            None => entries_date_failure(entries, i + 1),
        }
    } else {
        None
    }
}

/// `r` is the conversion of `v` at the clock reading `now`: the same shape,
/// with the now marker turned into `now` and each date marker into the instant
/// its text denotes; everything else is kept as it is.
pub open spec fn converted(v: JsonValue, r: FirestoreValue, now: Timestamp) -> bool
    decreases v,
{
    match v {
        JsonValue::Null => r is Null,
        JsonValue::Bool(b) => r == FirestoreValue::Bool(b),
        JsonValue::Number(n) => r == FirestoreValue::Number(n),
        JsonValue::String(s) => if s@ == now_marker() {
            r == FirestoreValue::Timestamp(now)
        } else {
            r matches FirestoreValue::String(rs) && rs@ == s@
        },
        JsonValue::Array(items) => r matches FirestoreValue::Array(out) && out.len() == items.len()
            && forall|i: int| 0 <= i < items.len() ==> converted(#[trigger] items@[i], out@[i], now),
        JsonValue::Object(entries) => match date_marker_text(entries@) {
            Some(text) => date_outcome(text) matches Ok(instant) && r == FirestoreValue::Timestamp(
                Timestamp { seconds: instant.0, nanos: instant.1 },
            ),
            None => r matches FirestoreValue::Object(fields) && fields.len() == entries.len()
                && forall|i: int|
                #![trigger entries@[i]]
                0 <= i < entries.len() ==> fields@[i].0@ == entries@[i].0@ && converted(
                    entries@[i].1,
                    fields@[i].1,
                    now,
                ),
        },
    }
}

/// Every object in the value, at any depth, has distinct keys.
pub open spec fn firestore_wf(v: FirestoreValue) -> bool
    decreases v,
{
    match v {
        FirestoreValue::Array(items) => forall|i: int|
            0 <= i < items.len() ==> firestore_wf(#[trigger] items@[i]),
        FirestoreValue::Object(fields) => keys_distinct(fields@) && forall|i: int|
            0 <= i < fields.len() ==> firestore_wf(#[trigger] fields@[i].1),
        _ => true,
    }
}

/// Converting a JSON document whose objects have distinct keys gives a value
/// whose objects have distinct keys: an object stays a map.
pub proof fn lemma_conversion_keeps_keys_distinct(v: JsonValue, r: FirestoreValue, now: Timestamp)
    requires
        json_wf(v),
        converted(v, r, now),
    ensures
        firestore_wf(r),
    decreases v,
{
    match v {
        JsonValue::Array(items) => {
            let out = r->Array_0;
            assert forall|i: int| 0 <= i < out.len() implies firestore_wf(#[trigger] out@[i]) by {
                assert(decreases_to!(v => items));
                lemma_conversion_keeps_keys_distinct(items@[i], out@[i], now);
            }
        },
        JsonValue::Object(entries) => {
            if date_marker_text(entries@) is None {
                let fields = r->Object_0;
                assert forall|i: int| 0 <= i < fields.len() implies firestore_wf(
                    #[trigger] fields@[i].1,
                ) by {
                    assert(decreases_to!(v => entries));
                    assert(entries@[i].0@ == fields@[i].0@);
                    lemma_conversion_keeps_keys_distinct(entries@[i].1, fields@[i].1, now);
                }
                assert forall|i: int, j: int|
                    0 <= i < fields.len() && 0 <= j < fields.len() && i != j implies #[trigger] fields@[i].0@
                    != #[trigger] fields@[j].0@ by {
                    assert(entries@[i].0@ == fields@[i].0@);
                    assert(entries@[j].0@ == fields@[j].0@);
                }
            }
        },
        _ => {},
    }
}

/// Some object in the value, at any depth, is a date marker.
pub open spec fn has_date_marker(v: JsonValue) -> bool
    decreases v,
{
    match v {
        JsonValue::Array(items) => exists|i: int|
            0 <= i < items.len() && has_date_marker(#[trigger] items@[i]),
        JsonValue::Object(entries) => date_marker_text(entries@) is Some || exists|i: int|
            0 <= i < entries.len() && has_date_marker(#[trigger] entries@[i].1),
        _ => false,
    }
}

/// Only a date marker can make the conversion fail: a value without one has
/// no date failure.
pub proof fn lemma_only_date_markers_fail(v: JsonValue)
    requires
        !has_date_marker(v),
    ensures
        first_date_failure(v) is None,
    decreases v, 0int,
{
    match v {
        JsonValue::Array(items) => {
            assert(decreases_to!(v => items@));
            lemma_items_without_markers(items@, 0);
        },
        JsonValue::Object(entries) => {
            assert(decreases_to!(v => entries@));
            lemma_entries_without_markers(entries@, 0);
        },
        _ => {},
    }
}

proof fn lemma_items_without_markers(items: Seq<JsonValue>, i: int)
    requires
        0 <= i,
        forall|j: int| 0 <= j < items.len() ==> !has_date_marker(#[trigger] items[j]),
    ensures
        items_date_failure(items, i) is None,
    decreases items, items.len() - i,
{
    if i < items.len() {
        lemma_only_date_markers_fail(items[i]);
        lemma_items_without_markers(items, i + 1);
    }
}

proof fn lemma_entries_without_markers(entries: Seq<(String, JsonValue)>, i: int)
    requires
        0 <= i,
        forall|j: int| 0 <= j < entries.len() ==> !has_date_marker(#[trigger] entries[j].1),
    ensures
        entries_date_failure(entries, i) is None,
    decreases entries, entries.len() - i,
{
    if i < entries.len() {
        assert(decreases_to!(entries => entries[i].1));
        lemma_only_date_markers_fail(entries[i].1);
        lemma_entries_without_markers(entries, i + 1);
    }
}

/// No date failure among `items[i..]` exactly when no item there has one.
proof fn lemma_items_failure_free(items: Seq<JsonValue>, i: int)
    requires
        0 <= i,
    ensures
        items_date_failure(items, i) is None <==> forall|j: int|
            i <= j < items.len() ==> first_date_failure(#[trigger] items[j]) is None,
    decreases items.len() - i,
{
    if i < items.len() {
        lemma_items_failure_free(items, i + 1);
    }
}

/// No date failure among the values of `entries[i..]` exactly when no value
/// there has one.
proof fn lemma_entries_failure_free(entries: Seq<(String, JsonValue)>, i: int)
    requires
        0 <= i,
    ensures
        entries_date_failure(entries, i) is None <==> forall|j: int|
            i <= j < entries.len() ==> first_date_failure(#[trigger] entries[j].1) is None,
    decreases entries.len() - i,
{
    if i < entries.len() {
        lemma_entries_failure_free(entries, i + 1);
    }
}

/// An array converts element by element: it converts without failure exactly
/// when each element does, and a converted array is one whose elements are,
/// in order, conversions of the elements.
pub proof fn lemma_array_converts_elementwise(
    items: Vec<JsonValue>,
    out: Vec<FirestoreValue>,
    now: Timestamp,
)
    ensures
        first_date_failure(JsonValue::Array(items)) is None <==> forall|i: int|
            0 <= i < items.len() ==> first_date_failure(#[trigger] items@[i]) is None,
        converted(JsonValue::Array(items), FirestoreValue::Array(out), now) <==> (out.len()
            == items.len() && forall|i: int|
            0 <= i < items.len() ==> converted(#[trigger] items@[i], out@[i], now)),
{
    lemma_items_failure_free(items@, 0);
}

/// An object that is no date marker converts entry by entry: it converts
/// without failure exactly when each value does, and a converted object keeps
/// the keys, in order, with conversions of the values.
pub proof fn lemma_object_converts_entrywise(
    entries: Vec<(String, JsonValue)>,
    fields: Vec<(String, FirestoreValue)>,
    now: Timestamp,
)
    requires
        date_marker_text(entries@) is None,
    ensures
        first_date_failure(JsonValue::Object(entries)) is None <==> forall|i: int|
            0 <= i < entries.len() ==> first_date_failure(#[trigger] entries@[i].1) is None,
        converted(JsonValue::Object(entries), FirestoreValue::Object(fields), now) <==> (fields.len()
            == entries.len() && forall|i: int|
            #![trigger entries@[i]]
            0 <= i < entries.len() ==> fields@[i].0@ == entries@[i].0@ && converted(
                entries@[i].1,
                fields@[i].1,
                now,
            )),
{
    lemma_entries_failure_free(entries@, 0);
}

/// Some string in the value, at any depth, is the now marker.
pub open spec fn has_now_marker(v: JsonValue) -> bool
    decreases v,
{
    match v {
        JsonValue::String(s) => s@ == now_marker(),
        JsonValue::Array(items) => exists|i: int|
            0 <= i < items.len() && has_now_marker(#[trigger] items@[i]),
        JsonValue::Object(entries) => exists|i: int|
            0 <= i < entries.len() && has_now_marker(#[trigger] entries@[i].1),
        _ => false,
    }
}

/// Two Firestore values agree: the same shape, with equal booleans, numbers
/// and instants, and equal texts of strings and keys.
pub open spec fn same_value(a: FirestoreValue, b: FirestoreValue) -> bool
    decreases a,
{
    match a {
        FirestoreValue::Null => b is Null,
        FirestoreValue::Bool(x) => b == FirestoreValue::Bool(x),
        FirestoreValue::Number(x) => b == FirestoreValue::Number(x),
        FirestoreValue::String(x) => b matches FirestoreValue::String(y) && x@ == y@,
        FirestoreValue::Timestamp(x) => b == FirestoreValue::Timestamp(x),
        FirestoreValue::Array(x) => b matches FirestoreValue::Array(y) && x.len() == y.len()
            && forall|i: int| 0 <= i < x.len() ==> same_value(#[trigger] x@[i], y@[i]),
        FirestoreValue::Object(x) => b matches FirestoreValue::Object(y) && x.len() == y.len()
            && forall|i: int|
            #![trigger x@[i]]
            0 <= i < x.len() ==> x@[i].0@ == y@[i].0@ && same_value(x@[i].1, y@[i].1),
    }
}

/// The conversion is a function of the document and the clock reading, and
/// without the now marker of the document alone: two conversions of it agree
/// when they read the same clock or when it holds no now marker.
pub proof fn lemma_conversion_is_determined(
    v: JsonValue,
    r1: FirestoreValue,
    r2: FirestoreValue,
    now1: Timestamp,
    now2: Timestamp,
)
    requires
        !has_now_marker(v) || now1 == now2,
        converted(v, r1, now1),
        converted(v, r2, now2),
    ensures
        same_value(r1, r2),
    decreases v,
{
    match v {
        JsonValue::Array(items) => {
            let o1 = r1->Array_0;
            let o2 = r2->Array_0;
            assert forall|i: int| 0 <= i < o1.len() implies same_value(#[trigger] o1@[i], o2@[i]) by {
                assert(decreases_to!(v => items@[i]));
                assert(!has_now_marker(v) ==> !has_now_marker(items@[i]));
                lemma_conversion_is_determined(items@[i], o1@[i], o2@[i], now1, now2);
            }
        },
        JsonValue::Object(entries) => {
            if date_marker_text(entries@) is None {
                let f1 = r1->Object_0;
                let f2 = r2->Object_0;
                assert forall|i: int| #![trigger f1@[i]] 0 <= i < f1.len() implies f1@[i].0@ == f2@[i].0@
                    && same_value(f1@[i].1, f2@[i].1) by {
                    assert(decreases_to!(v => entries@[i].1));
                    assert(!has_now_marker(v) ==> !has_now_marker(entries@[i].1));
                    assert(converted(entries@[i].1, f1@[i].1, now1));
                    assert(converted(entries@[i].1, f2@[i].1, now2));
                    lemma_conversion_is_determined(entries@[i].1, f1@[i].1, f2@[i].1, now1, now2);
                }
            }
        },
        _ => {},
    }
}

/// Finds the date text of an object that is a date marker.
fn find_date_marker(entries: &Vec<(String, JsonValue)>) -> (text: Option<&String>)
    ensures
        match date_marker_text(entries@) {
            Some(t) => text matches Some(s) && s@ == t,
            None => text is None,
        },
{
    if entries.len() == 1 {
        let key = String::from_str("__fire_ts_from_date__");
        if entries[0].0 == key {
            match &entries[0].1 {
                JsonValue::String(s) => Some(s),
                _ => None,
            }
        } else {
            None
        }
    } else {
        None
    }
}

/// The naive forms, in the order they are tried.
fn naive_formats() -> (formats: Vec<&'static str>)
    ensures
        formats@.len() == naive_date_formats().len(),
        forall|i: int| 0 <= i < formats@.len() ==> #[trigger] formats@[i]@ == naive_date_formats()[i],
{
    let mut formats: Vec<&'static str> = Vec::new();
    formats.push("%Y-%m-%d %H:%M:%S");
    formats.push("%Y-%m-%d %H:%M:%S%.f");
    formats.push("%Y-%m-%dT%H:%M:%S%.f");
    formats.push("%Y-%m-%d %H:%M");
    formats.push("%Y-%m-%dT%H:%M");
    formats
}

/// Tries the naive forms after the first one, in turn, on the text.
fn parse_other_naive_forms(text: &str) -> (instant: Option<(i64, u32)>)
    ensures
        instant == naive_instant_from(text@, 1),
{
    let formats = naive_formats();
    let mut i: usize = 1;
    while i < formats.len()
        invariant
            1 <= i <= formats@.len(),
            formats@.len() == naive_date_formats().len(),
            forall|j: int| 0 <= j < formats@.len() ==> #[trigger] formats@[j]@ == naive_date_formats()[j],
            naive_instant_from(text@, 1) == naive_instant_from(text@, i as int),
        decreases formats.len() - i,
    {
        let reading = parse_naive_utc(text, formats[i]);
        assert(formats@[i as int]@ == naive_date_formats()[i as int]);
        match reading {
            Ok(instant) => {
                return Some(instant);
            },
            Err(_) => {},
        }
        i += 1;
    }
    None
}

/// The instant a date marker stands for, the RFC 3339 reading having failed,
/// given what the first naive form (`%Y-%m-%d %H:%M:%S`) made of its text and,
/// where that failed, what the other naive forms made of it: the first instant
/// read, or the error that reports the text with the first form's reason.
pub fn timestamp_from_naive_readings(
    text: &String,
    first: Result<(i64, u32), String>,
    others: Option<(i64, u32)>,
) -> (r: Result<Timestamp, SeedError>)
    ensures
        match first {
            Ok(instant) => r == Ok::<Timestamp, SeedError>(
                Timestamp { seconds: instant.0, nanos: instant.1 },
            ),
            Err(message) => match others {
                Some(instant) => r == Ok::<Timestamp, SeedError>(
                    Timestamp { seconds: instant.0, nanos: instant.1 },
                ),
                None => r matches Err(SeedError::TimestampParse { input, details })
                    && input@ == text@ && details@ == message@,
            },
        },
{
    match first {
        Ok(instant) => Ok(Timestamp { seconds: instant.0, nanos: instant.1 }),
        Err(message) => match others {
            Some(instant) => Ok(Timestamp { seconds: instant.0, nanos: instant.1 }),
            None => Err(SeedError::TimestampParse { input: text.clone(), details: message }),
        },
    }
}

/// Reads the instant of a date marker's text: RFC 3339 first, then each of
/// the naive forms in turn, taken as UTC.
pub fn parse_date_marker(text: &String) -> (r: Result<Timestamp, SeedError>)
    ensures
        match date_outcome(text@) {
            Ok(instant) => r == Ok::<Timestamp, SeedError>(
                Timestamp { seconds: instant.0, nanos: instant.1 },
            ),
            Err(details) => r matches Err(SeedError::TimestampParse { input, details: d })
                && input@ == text@ && d@ == details,
        },
        rfc3339_instant(text@) matches Some(instant) ==> r == Ok::<Timestamp, SeedError>(
            Timestamp { seconds: instant.0, nanos: instant.1 },
        ),
        rfc3339_instant(text@) is None ==> (naive_utc_instant(text@, "%Y-%m-%d %H:%M:%S"@) matches Ok(
            instant,
        ) ==> r == Ok::<Timestamp, SeedError>(Timestamp { seconds: instant.0, nanos: instant.1 })),
{
    match parse_rfc3339(text.as_str()) {
        Some(instant) => Ok(Timestamp { seconds: instant.0, nanos: instant.1 }),
        None => {
            let first = parse_naive_utc(text.as_str(), "%Y-%m-%d %H:%M:%S");
            let others = if first.is_ok() {
                None
            } else {
                parse_other_naive_forms(text.as_str())
            };
            timestamp_from_naive_readings(text, first, others)
        },
    }
}

/// Converts a JSON string: the now marker becomes the clock reading `now`,
/// any other string stays a string.
fn convert_string(s: &String, now: Timestamp) -> (r: FirestoreValue)
    ensures
        converted(JsonValue::String(*s), r, now),
{
    let marker = String::from_str("__fire_ts_now__");
    if *s == marker {
        FirestoreValue::Timestamp(now)
    } else {
        FirestoreValue::String(s.clone())
    }
}

/// Converts a JSON value into a Firestore value at the clock reading `now`,
/// turning `"__fire_ts_now__"` into `now` and `{"__fire_ts_from_date__": text}`
/// into the instant the text denotes. Fails on the first date text, in
/// document order, that denotes no instant.
pub fn json_to_firestore_value_at(v: &JsonValue, now: Timestamp) -> (r: Result<FirestoreValue, SeedError>)
    ensures
        match r {
            Ok(out) => first_date_failure(*v) is None && converted(*v, out, now),
            Err(e) => first_date_failure(*v) matches Some(failure) && e matches SeedError::TimestampParse {
                input,
                details,
            } && input@ == failure.0 && details@ == failure.1,
        },
        *v is Null ==> r matches Ok(FirestoreValue::Null),
        *v matches JsonValue::Bool(b) ==> r == Ok::<FirestoreValue, SeedError>(FirestoreValue::Bool(b)),
        *v matches JsonValue::Number(n) ==> r == Ok::<FirestoreValue, SeedError>(
            FirestoreValue::Number(n),
        ),
        *v matches JsonValue::String(s) ==> (if s@ == "__fire_ts_now__"@ {
            r == Ok::<FirestoreValue, SeedError>(FirestoreValue::Timestamp(now))
        } else {
            r matches Ok(FirestoreValue::String(t)) && t@ == s@
        }),
    decreases v,
{
    match v {
        JsonValue::Null => Ok(FirestoreValue::Null),
        JsonValue::Bool(b) => Ok(FirestoreValue::Bool(*b)),
        JsonValue::Number(n) => Ok(FirestoreValue::Number(*n)),
        JsonValue::String(s) => Ok(convert_string(s, now)),
        JsonValue::Array(items) => {
            let mut out: Vec<FirestoreValue> = Vec::new();
            let mut i: usize = 0;
            #[verifier::loop_isolation(false)]
            while i < items.len()
                invariant
                    i <= items.len(),
                    out.len() == i,
                    forall|j: int| 0 <= j < i ==> converted(#[trigger] items@[j], out@[j], now),
                    items_date_failure(items@, 0) == items_date_failure(items@, i as int),
                decreases items.len() - i,
            {
                proof {
                    assert(decreases_to!(*v => items@[i as int]));
                }
                let c = json_to_firestore_value_at(&items[i], now)?;
                out.push(c);
                i += 1;
            }
            Ok(FirestoreValue::Array(out))
        },
        JsonValue::Object(entries) => {
            if let Some(text) = find_date_marker(entries) {
                let t = parse_date_marker(text)?;
                return Ok(FirestoreValue::Timestamp(t));
            }
            let mut fields: Vec<(String, FirestoreValue)> = Vec::new();
            let mut i: usize = 0;
            #[verifier::loop_isolation(false)]
            while i < entries.len()
                invariant
                    i <= entries.len(),
                    fields.len() == i,
                    forall|j: int|
                        #![trigger entries@[j]]
                        0 <= j < i ==> fields@[j].0@ == entries@[j].0@ && converted(
                            entries@[j].1,
                            fields@[j].1,
                            now,
                        ),
                    entries_date_failure(entries@, 0) == entries_date_failure(entries@, i as int),
                decreases entries.len() - i,
            {
                proof {
                    assert(decreases_to!(*v => entries@[i as int].1));
                }
                let c = json_to_firestore_value_at(&entries[i].1, now)?;
                let key = entries[i].0.clone();
                fields.push((key, c));
                i += 1;
            }
            Ok(FirestoreValue::Object(fields))
        },
    }
}

/// Converts a JSON value into a Firestore value, turning every
/// `"__fire_ts_now__"` into one reading of the clock, taken as the conversion
/// starts, and `{"__fire_ts_from_date__": text}` into the instant the text
/// denotes. Fails on the first date text, in document order, that denotes no
/// instant.
pub fn json_to_firestore_value(v: &JsonValue) -> (r: Result<FirestoreValue, SeedError>)
    ensures
        match r {
            Ok(out) => first_date_failure(*v) is None && exists|now: Timestamp|
                is_clock_reading(now) && #[trigger] converted(*v, out, now),
            Err(e) => first_date_failure(*v) matches Some(failure) && e matches SeedError::TimestampParse {
                input,
                details,
            } && input@ == failure.0 && details@ == failure.1,
        },
{
    let now = current_time();
    let r = json_to_firestore_value_at(v, now);
    if let Ok(out) = &r {
        assert(converted(*v, *out, now));
    }
    r
}


/// Plain values are kept: null stays null, a boolean the same boolean, a
/// number the same number, and a string the same text, except the string
/// `"__fire_ts_now__"`, which becomes the clock reading.
pub proof fn lemma_plain_values_kept(v: JsonValue, r: FirestoreValue, now: Timestamp)
    requires
        converted(v, r, now),
    ensures
        v is Null ==> r is Null,
        v matches JsonValue::Bool(b) ==> r == FirestoreValue::Bool(b),
        v matches JsonValue::Number(n) ==> r == FirestoreValue::Number(n),
        v matches JsonValue::String(s) ==> (if s@ == "__fire_ts_now__"@ {
            r == FirestoreValue::Timestamp(now)
        } else {
            r matches FirestoreValue::String(t) && t@ == s@
        }),
        v matches JsonValue::Array(items) ==> (r matches FirestoreValue::Array(out) && out.len()
            == items.len() && forall|i: int|
            0 <= i < items.len() ==> converted(#[trigger] items@[i], out@[i], now)),
{
}

/// An object that is not a date marker (a single entry under
/// `"__fire_ts_from_date__"` holding a string) stays an object with the same
/// keys in the same order, each value converted.
pub proof fn lemma_object_keeps_its_entries(
    entries: Vec<(String, JsonValue)>,
    r: FirestoreValue,
    now: Timestamp,
)
    requires
        !(entries.len() == 1 && entries@[0].0@ == "__fire_ts_from_date__"@ && entries@[0].1 is String),
        converted(JsonValue::Object(entries), r, now),
    ensures
        r matches FirestoreValue::Object(fields) && fields.len() == entries.len() && forall|i: int|
            #![trigger entries@[i]]
            0 <= i < entries.len() ==> fields@[i].0@ == entries@[i].0@ && converted(
                entries@[i].1,
                fields@[i].1,
                now,
            ),
{
}

/// The order in which a date text is read: an RFC 3339 instant wins; else
/// `%Y-%m-%d %H:%M:%S` read as UTC; else, in turn, the forms with fractional
/// seconds (space, then `T`) and without seconds (space, then `T`). Where none
/// reads the text, the error is the one of `%Y-%m-%d %H:%M:%S`.
pub proof fn lemma_date_reading_order(text: Seq<char>)
    ensures
        rfc3339_instant(text) matches Some(i) ==> date_outcome(text) == Ok::<(i64, u32), Seq<char>>(i),
        rfc3339_instant(text) is None ==> (naive_utc_instant(text, "%Y-%m-%d %H:%M:%S"@) matches Ok(i)
            ==> date_outcome(text) == Ok::<(i64, u32), Seq<char>>(i)),
        rfc3339_instant(text) is None ==> (naive_utc_instant(text, "%Y-%m-%d %H:%M:%S"@) is Err ==> (
        naive_utc_instant(text, "%Y-%m-%d %H:%M:%S%.f"@) matches Ok(i) ==> date_outcome(text) == Ok::<
            (i64, u32),
            Seq<char>,
        >(i))),
        rfc3339_instant(text) is None ==> (naive_utc_instant(text, "%Y-%m-%d %H:%M:%S"@) is Err ==> (
        naive_utc_instant(text, "%Y-%m-%d %H:%M:%S%.f"@) is Err ==> (naive_utc_instant(
            text,
            "%Y-%m-%dT%H:%M:%S%.f"@,
        ) matches Ok(i) ==> date_outcome(text) == Ok::<(i64, u32), Seq<char>>(i)))),
        rfc3339_instant(text) is None ==> (naive_utc_instant(text, "%Y-%m-%d %H:%M:%S"@) is Err ==> (
        naive_utc_instant(text, "%Y-%m-%d %H:%M:%S%.f"@) is Err ==> (naive_utc_instant(
            text,
            "%Y-%m-%dT%H:%M:%S%.f"@,
        ) is Err ==> (naive_utc_instant(text, "%Y-%m-%d %H:%M"@) matches Ok(i) ==> date_outcome(text)
            == Ok::<(i64, u32), Seq<char>>(i))))),
        rfc3339_instant(text) is None ==> (naive_utc_instant(text, "%Y-%m-%d %H:%M:%S"@) is Err ==> (
        naive_utc_instant(text, "%Y-%m-%d %H:%M:%S%.f"@) is Err ==> (naive_utc_instant(
            text,
            "%Y-%m-%dT%H:%M:%S%.f"@,
        ) is Err ==> (naive_utc_instant(text, "%Y-%m-%d %H:%M"@) is Err ==> (naive_utc_instant(
            text,
            "%Y-%m-%dT%H:%M"@,
        ) matches Ok(i) ==> date_outcome(text) == Ok::<(i64, u32), Seq<char>>(i)))))),
        rfc3339_instant(text) is None ==> (naive_utc_instant(text, "%Y-%m-%d %H:%M:%S"@) matches Err(e)
            ==> (naive_utc_instant(text, "%Y-%m-%d %H:%M:%S%.f"@) is Err ==> (naive_utc_instant(
            text,
            "%Y-%m-%dT%H:%M:%S%.f"@,
        ) is Err ==> (naive_utc_instant(text, "%Y-%m-%d %H:%M"@) is Err ==> (naive_utc_instant(
            text,
            "%Y-%m-%dT%H:%M"@,
        ) is Err ==> date_outcome(text) == Err::<(i64, u32), Seq<char>>(e)))))),
{
    assert(naive_instant_from(text, 1) == match naive_utc_instant(text, "%Y-%m-%d %H:%M:%S%.f"@) {
        Ok(i) => Some(i),
        Err(_) => naive_instant_from(text, 2),
    });
    assert(naive_instant_from(text, 2) == match naive_utc_instant(text, "%Y-%m-%dT%H:%M:%S%.f"@) {
        Ok(i) => Some(i),
        Err(_) => naive_instant_from(text, 3),
    });
    assert(naive_instant_from(text, 3) == match naive_utc_instant(text, "%Y-%m-%d %H:%M"@) {
        Ok(i) => Some(i),
        Err(_) => naive_instant_from(text, 4),
    });
    assert(naive_instant_from(text, 4) == match naive_utc_instant(text, "%Y-%m-%dT%H:%M"@) {
        Ok(i) => Some(i),
        Err(_) => naive_instant_from(text, 5),
    });
    assert(naive_instant_from(text, 5) is None);
}

/// A date marker, the single entry `"__fire_ts_from_date__"` holding a text,
/// converts to the instant of the text: its RFC 3339 instant, else the one
/// `%Y-%m-%d %H:%M:%S` reads as UTC; and it converts to nothing when the text
/// denotes no instant.
pub proof fn lemma_date_marker_converts(
    entries: Vec<(String, JsonValue)>,
    text: String,
    r: FirestoreValue,
    now: Timestamp,
)
    requires
        entries.len() == 1,
        entries@[0].0@ == "__fire_ts_from_date__"@,
        entries@[0].1 == JsonValue::String(text),
    ensures
        first_date_failure(JsonValue::Object(entries)) == match date_outcome(text@) {
            Ok(_) => None,
            Err(details) => Some((text@, details)),
        },
        converted(JsonValue::Object(entries), r, now) <==> (date_outcome(text@) matches Ok(i) && r
            == FirestoreValue::Timestamp(Timestamp { seconds: i.0, nanos: i.1 })),
        converted(JsonValue::Object(entries), r, now) ==> (rfc3339_instant(text@) matches Some(i) ==> r
            == FirestoreValue::Timestamp(Timestamp { seconds: i.0, nanos: i.1 })),
        converted(JsonValue::Object(entries), r, now) ==> (rfc3339_instant(text@) is None ==> (
        naive_utc_instant(text@, "%Y-%m-%d %H:%M:%S"@) matches Ok(i) ==> r == FirestoreValue::Timestamp(
            Timestamp { seconds: i.0, nanos: i.1 },
        ))),
{
    lemma_date_reading_order(text@);
}


proof fn lemma_items_failure_at(items: Seq<JsonValue>, i: int, k: int)
    requires
        0 <= i <= k < items.len(),
        forall|j: int| i <= j < k ==> first_date_failure(#[trigger] items[j]) is None,
    ensures
        items_date_failure(items, i) == match first_date_failure(items[k]) {
            Some(failure) => Some(failure),
            None => items_date_failure(items, k + 1),
        },
    decreases k - i,
{
    if i < k {
        lemma_items_failure_at(items, i + 1, k);
    }
}

proof fn lemma_entries_failure_at(entries: Seq<(String, JsonValue)>, i: int, k: int)
    requires
        0 <= i <= k < entries.len(),
        forall|j: int| i <= j < k ==> first_date_failure(#[trigger] entries[j].1) is None,
    ensures
        entries_date_failure(entries, i) == match first_date_failure(entries[k].1) {
            Some(failure) => Some(failure),
            None => entries_date_failure(entries, k + 1),
        },
    decreases k - i,
{
    if i < k {
        lemma_entries_failure_at(entries, i + 1, k);
    }
}

/// An array fails on its first element, in order, that fails: the elements
/// before it convert, and its failure is the array's.
pub proof fn lemma_array_fails_on_first_failing_item(items: Vec<JsonValue>, k: int)
    requires
        0 <= k < items.len(),
        first_date_failure(items@[k]) is Some,
        forall|j: int| 0 <= j < k ==> first_date_failure(#[trigger] items@[j]) is None,
    ensures
        first_date_failure(JsonValue::Array(items)) == first_date_failure(items@[k]),
{
    lemma_items_failure_at(items@, 0, k);
}

/// An object that is not a date marker fails on its first value, in order,
/// that fails: the values before it convert, and its failure is the object's.
pub proof fn lemma_object_fails_on_first_failing_entry(entries: Vec<(String, JsonValue)>, k: int)
    requires
        !(entries.len() == 1 && entries@[0].0@ == "__fire_ts_from_date__"@ && entries@[0].1 is String),
        0 <= k < entries.len(),
        first_date_failure(entries@[k].1) is Some,
        forall|j: int| 0 <= j < k ==> first_date_failure(#[trigger] entries@[j].1) is None,
    ensures
        first_date_failure(JsonValue::Object(entries)) == first_date_failure(entries@[k].1),
{
    lemma_entries_failure_at(entries@, 0, k);
}

} // verus!
