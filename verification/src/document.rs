//! The documents a seeding run writes: their ids and their fields.

use rand::RngExt;
use vstd::prelude::*;

use crate::error::SeedError;
use crate::firestore_value::{
    converted, date_marker_text, first_date_failure, json_to_firestore_value_at, lemma_conversion_is_determined,
    same_value, FirestoreValue,
};
use crate::timestamp::{current_time, is_clock_reading, Timestamp};
use crate::json::{json_get, JsonNumber, JsonValue};

verus! {

/// The ASCII digit of `d`, for `d` in `0..10`.
pub open spec fn digit_char(d: nat) -> char {
    (48 + d) as char
}

/// The decimal digits of `n`, most significant first, without leading zeros.
pub open spec fn decimal_digits(n: nat) -> Seq<char>
    decreases n,
{
    if n < 10 {
        seq![digit_char(n)]
    } else {
        decimal_digits(n / 10).push(digit_char(n % 10))
    }
}

/// The decimal text of an integer, with a leading `-` when it is negative.
pub open spec fn decimal_text(i: int) -> Seq<char> {
    if i < 0 {
        seq!['-'] + decimal_digits((-i) as nat)
    } else {
        decimal_digits(i as nat)
    }
}

/// Calls `Iterator::collect` on the characters to build a `String`; the
/// contract claims that the string holds exactly those characters.
#[verifier::external_body]
fn string_from_chars(chars: &Vec<char>) -> (s: String)
    ensures
        s@ == chars@,
{
    chars.iter().collect()
}

/// Appends the decimal digits of `n` to `out`.
fn push_decimal_digits(n: u64, out: &mut Vec<char>)
    ensures
        final(out)@ == old(out)@ + decimal_digits(n as nat),
    decreases n,
{
    if n >= 10 {
        push_decimal_digits(n / 10, out);
    }
    let d: u8 = (n % 10) as u8;
    out.push((48u8 + d) as char);
}

/// Renders an integer in decimal, as `i64::to_string` does.
pub fn decimal_string(i: i64) -> (s: String)
    ensures
        s@ == decimal_text(i as int),
{
    let mut chars: Vec<char> = Vec::new();
    if i < 0 {
        chars.push('-');
        let magnitude: u64 = (0i128 - i as i128) as u64;
        push_decimal_digits(magnitude, &mut chars);
    } else {
        push_decimal_digits(i as u64, &mut chars);
    }
    string_from_chars(&chars)
}

/// The id an item gets when no id field is named: the placeholder that the
/// write replaces by a random id.
pub open spec fn generated_id_placeholder() -> Seq<char> {
    "(generated)"@
}

/// The text of the id under `field` in `item`: a string value as it is, an
/// integer value that fits an `i64` in decimal; `None` otherwise.
pub open spec fn id_field_text(item: JsonValue, field: Seq<char>) -> Option<Seq<char>> {
    match json_get(item, field) {
        Some(JsonValue::String(s)) => Some(s@),
        Some(JsonValue::Number(n)) => match n.spec_as_i64() {
            Some(i) => Some(decimal_text(i as int)),
            None => None,
        },
        _ => None,
    }
}

/// The report of an id field that is missing or holds no usable id.
pub open spec fn missing_id_detail(field: Seq<char>) -> Seq<char> {
    "ID field '"@ + field + "' not found or invalid (must be string or int) in item"@
}

/// What the id of `item` is under the `id_field` setting: the placeholder
/// when no field is named, the field's text, or `None` when the field holds
/// no usable id.
pub open spec fn spec_item_id(item: JsonValue, id_field: Option<Seq<char>>) -> Option<Seq<char>> {
    match id_field {
        None => Some(generated_id_placeholder()),
        Some(field) => id_field_text(item, field),
    }
}

/// The name of the id field, by its view.
pub open spec fn field_name(id_field: Option<&str>) -> Option<Seq<char>> {
    match id_field {
        Some(f) => Some(f@),
        None => None,
    }
}

/// The id of an item: the text of its `id_field` (a string, or an integer
/// rendered in decimal), or the placeholder `(generated)` when no field is
/// named. Fails when the named field is missing or holds anything else.
pub fn get_id(item: &JsonValue, id_field: Option<&str>) -> (r: Result<String, SeedError>)
    ensures
        match spec_item_id(*item, field_name(id_field)) {
            Some(id) => r matches Ok(s) && s@ == id,
            None => r matches Err(SeedError::ValidationError(m)) && id_field matches Some(f)
                && m@ == missing_id_detail(f@),
        },
{
    match id_field {
        Some(field) => {
            let found = item.get(field);
            let text = match found {
                Some(value) => match value {
                    JsonValue::String(s) => Some(s.clone()),
                    JsonValue::Number(n) => match n.as_i64() {
                        Some(i) => Some(decimal_string(i)),
                        None => None,
                    },
                    _ => None,
                },
                None => None,
            };
            match text {
                Some(id) => Ok(id),
                None => Err(
                    SeedError::ValidationError(
                        String::from_str("ID field '").concat(field).concat(
                            "' not found or invalid (must be string or int) in item",
                        ),
                    ),
                ),
            }
        },
        None => Ok(String::from_str("(generated)")),
    }
}

/// `c` is an ASCII letter or digit.
pub open spec fn is_ascii_alphanumeric(c: char) -> bool {
    (48 <= c as u32 <= 57) || (65 <= c as u32 <= 90) || (97 <= c as u32 <= 122)
}

/// `id` could be a generated id: twenty ASCII letters and digits.
pub open spec fn is_generated_id(id: Seq<char>) -> bool {
    id.len() == 20 && forall|i: int| 0 <= i < id.len() ==> is_ascii_alphanumeric(#[trigger] id[i])
}

/// Calls `rand::rng().sample_iter(&rand::distr::Alphanumeric)`, takes `len`
/// samples and turns each byte into a `char`. The contract claims only what
/// holds of every outcome: `len` characters, each an ASCII letter or digit
/// (rand's `Alphanumeric` samples from `A-Z`, `a-z`, `0-9`). rand panics when
/// the operating system's random source fails; that is left unsaid.
#[verifier::external_body]
fn random_alphanumeric(len: usize) -> (s: String)
    ensures
        s@.len() == len,
        forall|i: int| 0 <= i < len ==> is_ascii_alphanumeric(#[trigger] s@[i]),
{
    rand::rng().sample_iter(&rand::distr::Alphanumeric).take(len).map(char::from).collect()
}

/// A fresh random document id of twenty ASCII letters and digits.
pub fn generate_random_id() -> (id: String)
    ensures
        is_generated_id(id@),
{
    random_alphanumeric(20)
}

/// The fields written for a value: an object's own fields; any other value
/// goes under the single field `value`.
pub fn document_fields(value: FirestoreValue) -> (fields: Vec<(String, FirestoreValue)>)
    ensures
        match value {
            FirestoreValue::Object(map) => fields == map,
            _ => fields@.len() == 1 && fields@[0].0@ == "value"@ && fields@[0].1 == value,
        },
{
    match value {
        FirestoreValue::Object(map) => map,
        other => {
            let mut fields: Vec<(String, FirestoreValue)> = Vec::new();
            fields.push((String::from_str("value"), other));
            fields
        },
    }
}

/// `fields` are the fields written for the conversion of `item` at the clock
/// reading `now`: the converted entries of an object that is no date marker,
/// else the converted item under the single field `value`.
pub open spec fn fields_converted(
    item: JsonValue,
    fields: Seq<(String, FirestoreValue)>,
    now: Timestamp,
) -> bool {
    match item {
        JsonValue::Object(entries) => match date_marker_text(entries@) {
            None => fields.len() == entries.len() && forall|i: int|
                #![trigger entries@[i]]
                0 <= i < entries.len() ==> fields[i].0@ == entries@[i].0@ && converted(
                    entries@[i].1,
                    fields[i].1,
                    now,
                ),
            Some(_) => fields.len() == 1 && fields[0].0@ == "value"@ && converted(
                item,
                fields[0].1,
                now,
            ),
        },
        _ => fields.len() == 1 && fields[0].0@ == "value"@ && converted(item, fields[0].1, now),
    }
}

/// `e` is the error of preparing `item`: the first date marker that denotes no
/// instant, else the missing or unusable id field.
pub open spec fn preparation_error(item: JsonValue, id_field: Option<Seq<char>>, e: SeedError) -> bool {
    match first_date_failure(item) {
        Some(failure) => e matches SeedError::TimestampParse { input, details } && input@ == failure.0
            && details@ == failure.1,
        None => {
            &&& spec_item_id(item, id_field) is None
            &&& id_field matches Some(field)
            &&& e matches SeedError::ValidationError(m)
            &&& m@ == missing_id_detail(field)
        },
    }
}

/// What previewing `item` at the clock reading `now` gives: its id (the
/// placeholder included) and its conversion, or the error of preparing it.
pub open spec fn dry_run_outcome(
    item: JsonValue,
    id_field: Option<Seq<char>>,
    now: Timestamp,
    r: Result<(String, FirestoreValue), SeedError>,
) -> bool {
    match r {
        Ok(shown) => first_date_failure(item) is None && spec_item_id(item, id_field) == Some(
            shown.0@,
        ) && converted(item, shown.1, now),
        Err(e) => preparation_error(item, id_field, e),
    }
}

/// A document ready to be written: its id and its fields.
#[derive(Debug)]
pub struct PreparedDocument {
    pub id: String,
    pub fields: Vec<(String, FirestoreValue)>,
}

/// What preparing `item` for writing at the clock reading `now` gives, with
/// `fresh_id` in place of the `(generated)` placeholder: its id and the fields
/// of its conversion, or the error of preparing it.
pub open spec fn write_outcome(
    item: JsonValue,
    id_field: Option<Seq<char>>,
    now: Timestamp,
    fresh_id: Seq<char>,
    r: Result<PreparedDocument, SeedError>,
) -> bool {
    match r {
        Ok(doc) => {
            &&& first_date_failure(item) is None
            &&& spec_item_id(item, id_field) matches Some(id)
            &&& doc.id@ == if id == generated_id_placeholder() {
                fresh_id
            } else {
                id
            }
            &&& fields_converted(item, doc.fields@, now)
        },
        Err(e) => preparation_error(item, id_field, e),
    }
}

/// Previews an item at the clock reading `now`: its converted value and its id.
pub fn prepare_dry_run_at(item: &JsonValue, id_field: Option<&str>, now: Timestamp) -> (r: Result<
    (String, FirestoreValue),
    SeedError,
>)
    ensures
        dry_run_outcome(*item, field_name(id_field), now, r),
        r matches Ok(shown) ==> converted(*item, shown.1, now),
{
    let value = json_to_firestore_value_at(item, now)?;
    let id = get_id(item, id_field)?;
    Ok((id, value))
}

/// Previews an item as a dry run shows it, reading the clock once for it.
pub fn prepare_dry_run(item: &JsonValue, id_field: Option<&str>) -> (r: Result<
    (String, FirestoreValue),
    SeedError,
>)
    ensures
        exists|now: Timestamp|
            is_clock_reading(now) && #[trigger] dry_run_outcome(*item, field_name(id_field), now, r),
{
    let now = current_time();
    let r = prepare_dry_run_at(item, id_field, now);
    assert(dry_run_outcome(*item, field_name(id_field), now, r));
    r
}

/// Prepares an item for writing at the clock reading `now`: converts it, takes
/// its id (`fresh_id` in place of `(generated)`) and lays out its fields.
pub fn prepare_write_with(
    item: &JsonValue,
    id_field: Option<&str>,
    now: Timestamp,
    fresh_id: String,
) -> (r: Result<PreparedDocument, SeedError>)
    ensures
        write_outcome(*item, field_name(id_field), now, fresh_id@, r),
        r matches Ok(doc) ==> (item matches JsonValue::Object(entries) ==> (!(entries.len() == 1
            && entries@[0].0@ == "__fire_ts_from_date__"@ && entries@[0].1 is String) ==> (
        doc.fields@.len() == entries.len() && forall|i: int|
            #![trigger entries@[i]]
            0 <= i < entries.len() ==> doc.fields@[i].0@ == entries@[i].0@ && converted(
                entries@[i].1,
                doc.fields@[i].1,
                now,
            )))),
        r matches Ok(doc) ==> (!(item is Object) ==> (doc.fields@.len() == 1 && doc.fields@[0].0@
            == "value"@ && converted(*item, doc.fields@[0].1, now))),
{
    let value = json_to_firestore_value_at(item, now)?;
    let mut id = get_id(item, id_field)?;
    let placeholder = String::from_str("(generated)");
    if id == placeholder {
        id = fresh_id;
    }
    let ghost converted_value = value;
    let fields = document_fields(value);
    proof {
        if item is Object && date_marker_text(item->Object_0@) is None {
            assert(fields@ == converted_value->Object_0@);
        } else {
            assert(!(converted_value is Object));
        }
    }
    Ok(PreparedDocument { id, fields })
}

/// Prepares an item for writing: reads the clock once for it, draws a fresh
/// random id for the case that it has none of its own, and prepares it with
/// both.
pub fn prepare_write(item: &JsonValue, id_field: Option<&str>) -> (r: Result<PreparedDocument, SeedError>)
    ensures
        exists|now: Timestamp, fresh_id: Seq<char>|
            is_clock_reading(now) && is_generated_id(fresh_id) && #[trigger] write_outcome(
                *item,
                field_name(id_field),
                now,
                fresh_id,
                r,
            ),
{
    let now = current_time();
    let fresh_id = generate_random_id();
    let ghost fresh = fresh_id@;
    let r = prepare_write_with(item, id_field, now, fresh_id);
    assert(write_outcome(*item, field_name(id_field), now, fresh, r));
    r
}

/// A dry run previews the write: previewing an item succeeds exactly when
/// preparing it for writing does, both fail with the same report, and the
/// written id is the previewed one, or the fresh id where the preview shows
/// the `(generated)` placeholder.
pub proof fn lemma_dry_run_previews_write(
    item: JsonValue,
    id_field: Option<Seq<char>>,
    shown_at: Timestamp,
    written_at: Timestamp,
    fresh_id: Seq<char>,
    shown: Result<(String, FirestoreValue), SeedError>,
    written: Result<PreparedDocument, SeedError>,
)
    requires
        dry_run_outcome(item, id_field, shown_at, shown),
        write_outcome(item, id_field, written_at, fresh_id, written),
    ensures
        shown is Ok <==> written is Ok,
        shown is Err && written is Err ==> shown->Err_0.spec_message()
            == written->Err_0.spec_message(),
        shown is Ok && written is Ok ==> written->Ok_0.id@ == if shown->Ok_0.0@
            == generated_id_placeholder() {
            fresh_id
        } else {
            shown->Ok_0.0@
        },
{
}

/// The items of a document whose root is an array; any other root is refused.
pub fn document_items(data: &JsonValue) -> (r: Result<&Vec<JsonValue>, SeedError>)
    ensures
        match data {
            JsonValue::Array(items) => r == Ok::<&Vec<JsonValue>, SeedError>(items),
            _ => r matches Err(SeedError::NotAJsonArray),
        },
{
    match data.as_array() {
        Some(items) => Ok(items),
        None => Err(SeedError::NotAJsonArray),
    }
}


/// The fields a write prepares, whatever the id field setting: an object that
/// is not a date marker gives its own entries, keys in order, each value
/// converted; a date marker or any other value is converted and written under
/// the single field `value`.
pub proof fn lemma_written_fields(
    item: JsonValue,
    id_field: Option<Seq<char>>,
    now: Timestamp,
    fresh_id: Seq<char>,
    doc: PreparedDocument,
)
    requires
        write_outcome(item, id_field, now, fresh_id, Ok(doc)),
    ensures
        item matches JsonValue::Object(entries) ==> (!(entries.len() == 1 && entries@[0].0@
            == "__fire_ts_from_date__"@ && entries@[0].1 is String) ==> (doc.fields@.len()
            == entries.len() && forall|i: int|
            #![trigger entries@[i]]
            0 <= i < entries.len() ==> doc.fields@[i].0@ == entries@[i].0@ && converted(
                entries@[i].1,
                doc.fields@[i].1,
                now,
            ))),
        item matches JsonValue::Object(entries) ==> ((entries.len() == 1 && entries@[0].0@
            == "__fire_ts_from_date__"@ && entries@[0].1 is String) ==> (doc.fields@.len() == 1
            && doc.fields@[0].0@ == "value"@ && converted(item, doc.fields@[0].1, now))),
        !(item is Object) ==> (doc.fields@.len() == 1 && doc.fields@[0].0@ == "value"@ && converted(
            item,
            doc.fields@[0].1,
            now,
        )),
{
}

/// Two writes of the same item at the same clock reading prepare agreeing
/// fields, whatever id field each names and whatever fresh id each is given.
pub proof fn lemma_written_fields_ignore_id_field(
    item: JsonValue,
    field1: Option<Seq<char>>,
    field2: Option<Seq<char>>,
    now: Timestamp,
    fresh1: Seq<char>,
    fresh2: Seq<char>,
    doc1: PreparedDocument,
    doc2: PreparedDocument,
)
    requires
        write_outcome(item, field1, now, fresh1, Ok(doc1)),
        write_outcome(item, field2, now, fresh2, Ok(doc2)),
    ensures
        doc1.fields@.len() == doc2.fields@.len(),
        forall|i: int|
            #![trigger doc1.fields@[i]]
            0 <= i < doc1.fields@.len() ==> doc1.fields@[i].0@ == doc2.fields@[i].0@ && same_value(
                doc1.fields@[i].1,
                doc2.fields@[i].1,
            ),
{
    lemma_written_fields(item, field1, now, fresh1, doc1);
    lemma_written_fields(item, field2, now, fresh2, doc2);
    let f1 = doc1.fields@;
    let f2 = doc2.fields@;
    if item is Object && date_marker_text(item->Object_0@) is None {
        let entries = item->Object_0;
        assert forall|i: int| #![trigger f1[i]] 0 <= i < f1.len() implies f1[i].0@ == f2[i].0@
            && same_value(f1[i].1, f2[i].1) by {
            assert(f1[i].0@ == entries@[i].0@);
            lemma_conversion_is_determined(entries@[i].1, f1[i].1, f2[i].1, now, now);
        }
    } else {
        lemma_conversion_is_determined(item, f1[0].1, f2[0].1, now, now);
    }
}

/// A preview shows the conversion of the item, whatever the id field setting,
/// and two previews of the same item at the same clock reading agree.
pub proof fn lemma_preview_shows_converted_item(
    item: JsonValue,
    field1: Option<Seq<char>>,
    field2: Option<Seq<char>>,
    now: Timestamp,
    shown1: (String, FirestoreValue),
    shown2: (String, FirestoreValue),
)
    requires
        dry_run_outcome(item, field1, now, Ok(shown1)),
        dry_run_outcome(item, field2, now, Ok(shown2)),
    ensures
        converted(item, shown1.1, now),
        same_value(shown1.1, shown2.1),
{
    lemma_conversion_is_determined(item, shown1.1, shown2.1, now, now);
}

/// A preview shows what a write at the same clock reading writes: for an
/// object that is not a date marker, an object whose entries agree with the
/// written fields; for anything else, a value that agrees with the single
/// written field `value`.
pub proof fn lemma_preview_matches_write(
    item: JsonValue,
    shown_field: Option<Seq<char>>,
    written_field: Option<Seq<char>>,
    now: Timestamp,
    fresh_id: Seq<char>,
    shown: (String, FirestoreValue),
    doc: PreparedDocument,
)
    requires
        dry_run_outcome(item, shown_field, now, Ok(shown)),
        write_outcome(item, written_field, now, fresh_id, Ok(doc)),
    ensures
        item matches JsonValue::Object(entries) ==> (!(entries.len() == 1 && entries@[0].0@
            == "__fire_ts_from_date__"@ && entries@[0].1 is String) ==> (shown.1 matches FirestoreValue::Object(
            m,
        ) && m.len() == doc.fields.len() && forall|i: int|
            #![trigger m@[i]]
            0 <= i < m.len() ==> m@[i].0@ == doc.fields@[i].0@ && same_value(m@[i].1, doc.fields@[i].1))),
        item matches JsonValue::Object(entries) ==> ((entries.len() == 1 && entries@[0].0@
            == "__fire_ts_from_date__"@ && entries@[0].1 is String) ==> (doc.fields@.len() == 1
            && doc.fields@[0].0@ == "value"@ && same_value(shown.1, doc.fields@[0].1))),
        !(item is Object) ==> (doc.fields@.len() == 1 && doc.fields@[0].0@ == "value"@ && same_value(
            shown.1,
            doc.fields@[0].1,
        )),
{
    lemma_written_fields(item, written_field, now, fresh_id, doc);
    let f = doc.fields@;
    if item is Object && date_marker_text(item->Object_0@) is None {
        let entries = item->Object_0;
        let m = shown.1->Object_0;
        assert forall|i: int| #![trigger m@[i]] 0 <= i < m.len() implies m@[i].0@ == f[i].0@
            && same_value(m@[i].1, f[i].1) by {
            assert(m@[i].0@ == entries@[i].0@);
            assert(converted(entries@[i].1, m@[i].1, now));
            lemma_conversion_is_determined(entries@[i].1, m@[i].1, f[i].1, now, now);
        }
    } else {
        lemma_conversion_is_determined(item, shown.1, f[0].1, now, now);
    }
}


/// The number that a string of ASCII digits spells, most significant first.
pub open spec fn digits_value(s: Seq<char>) -> int
    decreases s.len(),
{
    if s.len() == 0 {
        0
    } else {
        digits_value(s.drop_last()) * 10 + (s.last() as int - 48)
    }
}

/// The decimal digits of a number are ASCII digits that spell it, with no
/// leading zero but for zero itself.
pub proof fn lemma_decimal_digits_spell_the_number(n: nat)
    ensures
        decimal_digits(n).len() >= 1,
        forall|i: int|
            0 <= i < decimal_digits(n).len() ==> 48 <= #[trigger] decimal_digits(n)[i] as int <= 57,
        digits_value(decimal_digits(n)) == n,
        decimal_digits(n)[0] == '0' ==> n == 0,
    decreases n,
{
    let d = decimal_digits(n);
    if n >= 10 {
        let q = n / 10;
        lemma_decimal_digits_spell_the_number(q);
        let prefix = decimal_digits(q);
        assert(d == prefix.push(digit_char(n % 10)));
        assert(d.drop_last() =~= prefix);
        assert(d[0] == prefix[0]);
        assert(q > 0);
        vstd::arithmetic::div_mod::lemma_fundamental_div_mod(n as int, 10);
        assert(digit_char(n % 10) as int == 48 + n % 10);
        assert(digits_value(d) == digits_value(prefix) * 10 + (d.last() as int - 48));
    } else {
        assert(digit_char(n) as int == 48 + n);
        assert(d.drop_last() =~= Seq::<char>::empty());
        assert(digits_value(d.drop_last()) == 0);
    }
}

/// The decimal text of an integer: a `-` exactly when it is negative, then the
/// digits of its magnitude.
pub proof fn lemma_decimal_text_spells_the_integer(i: int)
    ensures
        decimal_text(i).len() >= 1,
        (decimal_text(i)[0] == '-') == (i < 0),
        i >= 0 ==> 48 <= decimal_text(i)[0] as int <= 57,
        i < 0 ==> decimal_text(i).drop_first() == decimal_digits((-i) as nat),
        i >= 0 ==> decimal_text(i) == decimal_digits(i as nat),
        digits_value(decimal_digits(if i < 0 {
            -i
        } else {
            i
        } as nat)) == if i < 0 {
            -i
        } else {
            i
        },
{
    if i < 0 {
        lemma_decimal_digits_spell_the_number((-i) as nat);
        assert((seq!['-'] + decimal_digits((-i) as nat)).drop_first() =~= decimal_digits((-i) as nat));
    } else {
        lemma_decimal_digits_spell_the_number(i as nat);
        assert(48 <= decimal_digits(i as nat)[0] as int <= 57);
    }
}

/// The id a write gives a document: the fresh id when no id field is named;
/// else the field's string (the fresh id where it reads `(generated)`), or the
/// field's integer in decimal.
pub proof fn lemma_written_id(
    item: JsonValue,
    id_field: Option<Seq<char>>,
    now: Timestamp,
    fresh_id: Seq<char>,
    doc: PreparedDocument,
)
    requires
        write_outcome(item, id_field, now, fresh_id, Ok(doc)),
    ensures
        id_field is None ==> doc.id@ == fresh_id,
        id_field matches Some(f) ==> (json_get(item, f) matches Some(JsonValue::String(s)) ==> doc.id@
            == if s@ == "(generated)"@ {
            fresh_id
        } else {
            s@
        }),
        id_field matches Some(f) ==> (json_get(item, f) matches Some(JsonValue::Number(n)) ==> (
        n.spec_as_i64() matches Some(i) && doc.id@ == decimal_text(i as int))),
        id_field matches Some(f) ==> (json_get(item, f) matches Some(x) && (x is String || x is Number)),
{
    reveal_strlit("(generated)");
    if let Some(f) = id_field {
        if let Some(JsonValue::Number(n)) = json_get(item, f) {
            if let Some(i) = n.spec_as_i64() {
                lemma_decimal_text_spells_the_integer(i as int);
                assert(decimal_text(i as int)[0] != '(');
                assert("(generated)"@[0] == '(');
            }
        }
    }
}

/// The id a preview shows: `(generated)` when no id field is named; else the
/// field's string, or the field's integer in decimal.
pub proof fn lemma_previewed_id(
    item: JsonValue,
    id_field: Option<Seq<char>>,
    now: Timestamp,
    shown: (String, FirestoreValue),
)
    requires
        dry_run_outcome(item, id_field, now, Ok(shown)),
    ensures
        id_field is None ==> shown.0@ == "(generated)"@,
        id_field matches Some(f) ==> (json_get(item, f) matches Some(JsonValue::String(s)) ==> shown.0@
            == s@),
        id_field matches Some(f) ==> (json_get(item, f) matches Some(JsonValue::Number(n)) ==> (
        n.spec_as_i64() matches Some(i) && shown.0@ == decimal_text(i as int))),
        id_field matches Some(f) ==> (json_get(item, f) matches Some(x) && (x is String || x is Number)),
{
}

} // verus!
