use json_firestore_seed::document::PreparedDocument;
use json_firestore_seed::{
    items_from_parse, json_to_firestore_value_at, load_items, parse_json_document, prepare_dry_run_at,
    prepare_write_with,
};
use json_firestore_seed::seeding::RunSummary;
use json_firestore_seed::{
    decimal_string, document_fields, document_items, generate_random_id, get_id,
    json_to_firestore_value, parse_date_marker, plan_batches, prepare_dry_run, prepare_write,
    retry_delays, summarize, timestamp_from_naive_readings, validate_target, FirestoreValue,
    JsonNumber, JsonValue, NumberEncoding, SeedError, Timestamp,
};

fn text(s: &str) -> JsonValue {
    JsonValue::String(s.to_string())
}

fn integer(i: i64) -> JsonValue {
    if i < 0 {
        JsonValue::Number(JsonNumber::NegInt(i))
    } else {
        JsonValue::Number(JsonNumber::PosInt(i as u64))
    }
}

fn object(entries: Vec<(&str, JsonValue)>) -> JsonValue {
    JsonValue::Object(entries.into_iter().map(|(k, v)| (k.to_string(), v)).collect())
}

fn date_marker(s: &str) -> JsonValue {
    object(vec![("__fire_ts_from_date__", text(s))])
}

const INSTANT_2024_11_11: i64 = 1731324116;

#[test]
fn rfc3339_marker_becomes_its_instant() {
    let v = json_to_firestore_value(&date_marker("2024-11-11T11:21:56Z")).unwrap();
    assert!(matches!(v, FirestoreValue::Timestamp(Timestamp { seconds: INSTANT_2024_11_11, nanos: 0 })));
    let v = json_to_firestore_value(&date_marker("2024-11-11T13:21:56.5+02:00")).unwrap();
    assert!(matches!(
        v,
        FirestoreValue::Timestamp(Timestamp { seconds: INSTANT_2024_11_11, nanos: 500_000_000 })
    ));
}

#[test]
fn naive_marker_is_read_as_utc() {
    let t = parse_date_marker(&"2024-11-11 11:21:56".to_string()).unwrap();
    assert_eq!(t, Timestamp { seconds: INSTANT_2024_11_11, nanos: 0 });
    let t = parse_date_marker(&"1970-01-01 00:00:00".to_string()).unwrap();
    assert_eq!(t, Timestamp { seconds: 0, nanos: 0 });
}

#[test]
fn unreadable_date_reports_text_and_reason() {
    let err = parse_date_marker(&"not a date".to_string()).unwrap_err();
    match &err {
        SeedError::TimestampParse { input, details } => {
            assert_eq!(input, "not a date");
            assert_eq!(details, "input contains invalid characters");
        }
        other => panic!("unexpected error {:?}", other),
    }
    assert_eq!(
        err.message(),
        "Timestamp parsing failed for 'not a date': input contains invalid characters"
    );
    let err = parse_date_marker(&"2024-11-11".to_string()).unwrap_err();
    assert!(matches!(err, SeedError::TimestampParse { .. }));
}

#[test]
fn naive_readings_decide_marker() {
    let input = "x".to_string();
    let t = timestamp_from_naive_readings(&input, Ok((5, 6)), Some((7, 8))).unwrap();
    assert_eq!(t, Timestamp { seconds: 5, nanos: 6 });
    let t = timestamp_from_naive_readings(&input, Err("bad".to_string()), Some((7, 8))).unwrap();
    assert_eq!(t, Timestamp { seconds: 7, nanos: 8 });
    let err = timestamp_from_naive_readings(&input, Err("bad".to_string()), None).unwrap_err();
    assert_eq!(err.message(), "Timestamp parsing failed for 'x': bad");
}

#[test]
fn common_naive_forms_are_read_as_utc() {
    for text in [
        "2024-11-11T11:21:56",
        "2024-11-11 11:21:56",
        "2024-11-11T11:21:56.000",
        "2024-11-11 11:21:56.0",
    ] {
        let t = parse_date_marker(&text.to_string()).unwrap();
        assert_eq!(t, Timestamp { seconds: INSTANT_2024_11_11, nanos: 0 }, "{}", text);
    }
    let t = parse_date_marker(&"2024-11-11T11:21:56.25".to_string()).unwrap();
    assert_eq!(t, Timestamp { seconds: INSTANT_2024_11_11, nanos: 250_000_000 });
    let t = parse_date_marker(&"2024-11-11T11:21".to_string()).unwrap();
    assert_eq!(t, Timestamp { seconds: INSTANT_2024_11_11 - 56, nanos: 0 });
    let t = parse_date_marker(&"2024-11-11 11:21".to_string()).unwrap();
    assert_eq!(t, Timestamp { seconds: INSTANT_2024_11_11 - 56, nanos: 0 });
    let v = json_to_firestore_value(&date_marker("2024-11-11T11:21:56")).unwrap();
    assert!(matches!(v, FirestoreValue::Timestamp(Timestamp { seconds: INSTANT_2024_11_11, nanos: 0 })));
}

#[test]
fn json_text_is_parsed_into_items() {
    let items = load_items(r#"[1, -2, 2.5, "x", null, true, {"b": [1], "a": {}}]"#).unwrap();
    assert_eq!(items.len(), 7);
    assert!(matches!(items[0], JsonValue::Number(JsonNumber::PosInt(1))));
    assert!(matches!(items[1], JsonValue::Number(JsonNumber::NegInt(-2))));
    assert!(matches!(items[2], JsonValue::Number(JsonNumber::Float(b)) if b == 2.5f64.to_bits()));
    assert!(matches!(items[3], JsonValue::String(ref s) if s == "x"));
    assert!(matches!(items[4], JsonValue::Null));
    assert!(matches!(items[5], JsonValue::Bool(true)));
    match &items[6] {
        JsonValue::Object(entries) => {
            assert_eq!(entries.len(), 2);
            assert_eq!(entries[0].0, "a");
            assert_eq!(entries[1].0, "b");
        }
        other => panic!("unexpected item {:?}", other),
    }
    assert!(load_items("[]").unwrap().is_empty());
    let big = load_items("[18446744073709551615]").unwrap();
    assert!(matches!(big[0], JsonValue::Number(JsonNumber::PosInt(u64::MAX))));
}

#[test]
fn json_text_errors() {
    let err = load_items("[1, 2").unwrap_err();
    match &err {
        SeedError::JsonParse(details) => assert!(details.contains("EOF")),
        other => panic!("unexpected error {:?}", other),
    }
    assert!(err.message().starts_with("Invalid JSON structure: "));
    assert!(matches!(load_items("42"), Err(SeedError::NotAJsonArray)));
    assert!(matches!(load_items(r#"{"a": 1}"#), Err(SeedError::NotAJsonArray)));
    assert!(parse_json_document("nope").is_err());
    assert!(matches!(items_from_parse(Ok(JsonValue::Null)), Err(SeedError::NotAJsonArray)));
    assert!(matches!(
        items_from_parse(Err("bad".to_string())),
        Err(SeedError::JsonParse(ref d)) if d == "bad"
    ));
}

#[test]
fn conversion_without_now_marker_repeats_itself() {
    let doc = object(vec![
        ("a", JsonValue::Array(vec![integer(1), date_marker("2024-11-11 11:21:56"), text("x")])),
        ("b", text("y")),
    ]);
    let first = json_to_firestore_value(&doc).unwrap();
    let second = json_to_firestore_value(&doc).unwrap();
    assert_eq!(format!("{:?}", first), format!("{:?}", second));
}

#[test]
fn array_converts_element_by_element() {
    let elements = vec![integer(1), date_marker("2024-11-11T11:21:56Z"), text("x")];
    let whole = json_to_firestore_value(&JsonValue::Array(vec![
        integer(1),
        date_marker("2024-11-11T11:21:56Z"),
        text("x"),
    ]))
    .unwrap();
    let parts: Vec<FirestoreValue> =
        elements.iter().map(|e| json_to_firestore_value(e).unwrap()).collect();
    assert_eq!(format!("{:?}", whole), format!("{:?}", FirestoreValue::Array(parts)));
    let bad = JsonValue::Array(vec![integer(1), date_marker("bad")]);
    assert!(json_to_firestore_value(&bad).is_err());
    assert!(json_to_firestore_value(&date_marker("bad")).is_err());
}

#[test]
fn now_marker_becomes_current_time() {
    let v = json_to_firestore_value(&text("__fire_ts_now__")).unwrap();
    match v {
        FirestoreValue::Timestamp(t) => {
            assert!(t.seconds > INSTANT_2024_11_11);
            assert!(t.nanos < 1_000_000_000);
        }
        other => panic!("unexpected value {:?}", other),
    }
}

#[test]
fn plain_values_are_kept() {
    let v = json_to_firestore_value(&JsonValue::Null).unwrap();
    assert!(matches!(v, FirestoreValue::Null));
    let v = json_to_firestore_value(&JsonValue::Bool(true)).unwrap();
    assert!(matches!(v, FirestoreValue::Bool(true)));
    let v = json_to_firestore_value(&integer(-3)).unwrap();
    assert!(matches!(v, FirestoreValue::Number(JsonNumber::NegInt(-3))));
    let bits = 2.5f64.to_bits();
    let v = json_to_firestore_value(&JsonValue::Number(JsonNumber::Float(bits))).unwrap();
    assert!(matches!(v, FirestoreValue::Number(JsonNumber::Float(b)) if b == bits));
    let v = json_to_firestore_value(&text("__fire_ts_now")).unwrap();
    assert!(matches!(v, FirestoreValue::String(ref s) if s == "__fire_ts_now"));
}

#[test]
fn nested_values_are_converted_in_place() {
    let doc = object(vec![
        ("a", JsonValue::Array(vec![integer(1), date_marker("2024-11-11T11:21:56Z"), text("x")])),
        ("b", object(vec![("c", text("__fire_ts_now__"))])),
    ]);
    let v = json_to_firestore_value(&doc).unwrap();
    let fields = match v {
        FirestoreValue::Object(fields) => fields,
        other => panic!("unexpected value {:?}", other),
    };
    assert_eq!(fields.len(), 2);
    assert_eq!(fields[0].0, "a");
    assert_eq!(fields[1].0, "b");
    match &fields[0].1 {
        FirestoreValue::Array(items) => {
            assert_eq!(items.len(), 3);
            assert!(matches!(items[0], FirestoreValue::Number(JsonNumber::PosInt(1))));
            assert!(matches!(
                items[1],
                FirestoreValue::Timestamp(Timestamp { seconds: INSTANT_2024_11_11, nanos: 0 })
            ));
            assert!(matches!(items[2], FirestoreValue::String(ref s) if s == "x"));
        }
        other => panic!("unexpected value {:?}", other),
    }
    match &fields[1].1 {
        FirestoreValue::Object(inner) => {
            assert_eq!(inner[0].0, "c");
            assert!(matches!(inner[0].1, FirestoreValue::Timestamp(_)));
        }
        other => panic!("unexpected value {:?}", other),
    }
}

#[test]
fn only_single_entry_string_objects_are_date_markers() {
    let two = object(vec![
        ("__fire_ts_from_date__", text("2024-11-11T11:21:56Z")),
        ("other", integer(1)),
    ]);
    let v = json_to_firestore_value(&two).unwrap();
    assert!(matches!(v, FirestoreValue::Object(ref f) if f.len() == 2));
    let not_text = object(vec![("__fire_ts_from_date__", integer(5))]);
    let v = json_to_firestore_value(&not_text).unwrap();
    match v {
        FirestoreValue::Object(f) => {
            assert_eq!(f[0].0, "__fire_ts_from_date__");
            assert!(matches!(f[0].1, FirestoreValue::Number(JsonNumber::PosInt(5))));
        }
        other => panic!("unexpected value {:?}", other),
    }
}

#[test]
fn first_bad_date_in_document_order_is_reported() {
    let doc = JsonValue::Array(vec![
        object(vec![("a", date_marker("first bad")), ("b", date_marker("second bad"))]),
        date_marker("third bad"),
    ]);
    match json_to_firestore_value(&doc).unwrap_err() {
        SeedError::TimestampParse { input, .. } => assert_eq!(input, "first bad"),
        other => panic!("unexpected error {:?}", other),
    }
}

#[test]
fn id_from_string_or_integer_field() {
    let item = object(vec![("id", text("user_1")), ("n", integer(42)), ("m", integer(-7))]);
    assert_eq!(get_id(&item, Some("id")).unwrap(), "user_1");
    assert_eq!(get_id(&item, Some("n")).unwrap(), "42");
    assert_eq!(get_id(&item, Some("m")).unwrap(), "-7");
    assert_eq!(get_id(&item, None).unwrap(), "(generated)");
}

#[test]
fn unusable_id_fields_are_refused() {
    let item = object(vec![
        ("big", JsonValue::Number(JsonNumber::PosInt(u64::MAX))),
        ("f", JsonValue::Number(JsonNumber::Float(1.5f64.to_bits()))),
        ("b", JsonValue::Bool(true)),
    ]);
    for field in ["big", "f", "b", "missing"] {
        let err = get_id(&item, Some(field)).unwrap_err();
        assert_eq!(
            err.message(),
            format!(
                "Validation error: ID field '{}' not found or invalid (must be string or int) in item",
                field
            )
        );
    }
    let err = get_id(&JsonValue::Array(vec![]), Some("id")).unwrap_err();
    assert!(matches!(err, SeedError::ValidationError(_)));
}

#[test]
fn decimal_matches_to_string() {
    for i in [0i64, 7, 10, 99, 100, 1234567890, -1, -10, i64::MAX, i64::MIN] {
        assert_eq!(decimal_string(i), i.to_string());
    }
}

#[test]
fn generated_ids_are_twenty_alphanumerics() {
    let a = generate_random_id();
    let b = generate_random_id();
    assert_eq!(a.chars().count(), 20);
    assert!(a.chars().all(|c| c.is_ascii_alphanumeric()));
    assert!(b.chars().all(|c| c.is_ascii_alphanumeric()));
    assert_ne!(a, b);
}

#[test]
fn non_objects_are_written_under_value() {
    let fields = document_fields(FirestoreValue::Bool(false));
    assert_eq!(fields.len(), 1);
    assert_eq!(fields[0].0, "value");
    assert!(matches!(fields[0].1, FirestoreValue::Bool(false)));
    let fields = document_fields(FirestoreValue::Object(vec![(
        "k".to_string(),
        FirestoreValue::Null,
    )]));
    assert_eq!(fields.len(), 1);
    assert_eq!(fields[0].0, "k");
}

#[test]
fn write_preparation_replaces_placeholder() {
    let item = object(vec![("id", text("user_1")), ("name", text("Alice"))]);
    let doc: PreparedDocument = prepare_write(&item, None).unwrap();
    assert_eq!(doc.id.len(), 20);
    assert!(doc.id.chars().all(|c| c.is_ascii_alphanumeric()));
    assert_eq!(doc.fields.len(), 2);
    let doc = prepare_write(&item, Some("id")).unwrap();
    assert_eq!(doc.id, "user_1");
    let placeholder = object(vec![("id", text("(generated)"))]);
    let doc = prepare_write(&placeholder, Some("id")).unwrap();
    assert_ne!(doc.id, "(generated)");
    assert_eq!(doc.id.len(), 20);
    let (id, _) = prepare_dry_run(&placeholder, Some("id")).unwrap();
    assert_eq!(id, "(generated)");
    let doc = prepare_write(&integer(3), None).unwrap();
    assert_eq!(doc.fields[0].0, "value");
}

#[test]
fn conversion_error_comes_before_id_error() {
    let item = object(vec![("d", date_marker("bad"))]);
    let err = prepare_write(&item, Some("missing")).unwrap_err();
    assert!(matches!(err, SeedError::TimestampParse { .. }));
    let err = prepare_dry_run(&item, Some("missing")).unwrap_err();
    assert!(matches!(err, SeedError::TimestampParse { .. }));
}

#[test]
fn items_of_an_array_document() {
    let data = JsonValue::Array(vec![integer(1), integer(2)]);
    assert_eq!(document_items(&data).unwrap().len(), 2);
    assert!(matches!(document_items(&JsonValue::Null), Err(SeedError::NotAJsonArray)));
}

#[test]
fn target_checks() {
    assert!(validate_target("users", "p").is_ok());
    assert_eq!(
        validate_target("", "").unwrap_err().message(),
        "Validation error: Collection name cannot be empty"
    );
    assert_eq!(
        validate_target("users", "").unwrap_err().message(),
        "Validation error: Project ID cannot be empty"
    );
}

#[test]
fn batches_are_consecutive_chunks() {
    assert_eq!(plan_batches(5, 2), vec![(0, 2), (2, 4), (4, 5)]);
    assert_eq!(plan_batches(4, 2), vec![(0, 2), (2, 4)]);
    assert_eq!(plan_batches(0, 3), vec![]);
    assert_eq!(plan_batches(3, 10), vec![(0, 3)]);
    let items: Vec<u32> = (0..7).collect();
    let expected: Vec<Vec<u32>> = items.chunks(3).map(|c| c.to_vec()).collect();
    let planned: Vec<Vec<u32>> =
        plan_batches(7, 3).into_iter().map(|(s, e)| items[s..e].to_vec()).collect();
    assert_eq!(planned, expected);
}

#[test]
fn full_run_counts_every_item() {
    let batches = plan_batches(5, 2);
    let outcomes: Vec<Result<usize, SeedError>> = batches.iter().map(|(s, e)| Ok(e - s)).collect();
    let summary: RunSummary = summarize(outcomes, 2);
    assert_eq!(summary.success_count, 5);
    assert_eq!(summary.failure_count, 0);
    assert!(summary.into_result().is_ok());
}

#[test]
fn failures_count_whole_batches_and_keep_last_error() {
    let outcomes = vec![
        Err(SeedError::AuthError("first".to_string())),
        Ok(3),
        Err(SeedError::AuthError("last".to_string())),
        Ok(2),
    ];
    let summary = summarize(outcomes, 3);
    assert_eq!(summary.success_count, 5);
    assert_eq!(summary.failure_count, 6);
    let err = summary.into_result().unwrap_err();
    assert_eq!(err.message(), "Firestore authentication failed: last");
}

#[test]
fn retry_delays_grow_by_base() {
    assert_eq!(retry_delays(0), Vec::<u64>::new());
    assert_eq!(retry_delays(3), vec![100, 10_000, 1_000_000]);
    let long = retry_delays(12);
    assert_eq!(long[8], 1_000_000_000_000_000_000);
    assert_eq!(long[9], u64::MAX);
    assert_eq!(long[11], u64::MAX);
}

#[test]
fn numbers_encode_as_i64_first() {
    assert_eq!(JsonNumber::PosInt(5).encoding(), NumberEncoding::Signed(5));
    assert_eq!(JsonNumber::PosInt(u64::MAX).encoding(), NumberEncoding::Unsigned(u64::MAX));
    assert_eq!(JsonNumber::NegInt(-9).encoding(), NumberEncoding::Signed(-9));
    let bits = (-0.25f64).to_bits();
    assert_eq!(JsonNumber::Float(bits).encoding(), NumberEncoding::FloatBits(bits));
    assert_eq!(JsonNumber::PosInt(7).as_u64(), Some(7));
    assert_eq!(JsonNumber::NegInt(-7).as_u64(), None);
}

#[test]
fn json_lookup() {
    let item = object(vec![("a", integer(1)), ("b", text("x"))]);
    assert!(matches!(item.get("b"), Some(JsonValue::String(s)) if s == "x"));
    assert!(item.get("c").is_none());
    assert_eq!(item.get("b").unwrap().as_str(), Some("x"));
    assert_eq!(item.get("a").unwrap().as_i64(), Some(1));
    assert!(integer(1).get("a").is_none());
}

#[test]
fn every_error_has_its_report() {
    let cases = vec![
        (
            SeedError::JsonParse("expected value at line 1 column 1".to_string()),
            "Invalid JSON structure: expected value at line 1 column 1",
        ),
        (SeedError::NotAJsonArray, "JSON must be an array of objects"),
        (SeedError::AuthError("denied".to_string()), "Firestore authentication failed: denied"),
        (
            SeedError::FirestoreWrite { collection: "users".to_string(), source: "quota".to_string() },
            "Firestore write error for collection 'users': quota",
        ),
        (
            SeedError::TimestampParse { input: "x".to_string(), details: "bad".to_string() },
            "Timestamp parsing failed for 'x': bad",
        ),
        (SeedError::ValidationError("no".to_string()), "Validation error: no"),
    ];
    for (err, expected) in cases {
        assert_eq!(err.message(), expected);
    }
}

#[test]
fn conversion_at_a_clock_reading_uses_it_for_every_now_marker() {
    let now = Timestamp { seconds: 12, nanos: 34 };
    let doc = JsonValue::Array(vec![text("__fire_ts_now__"), object(vec![("t", text("__fire_ts_now__"))])]);
    match json_to_firestore_value_at(&doc, now).unwrap() {
        FirestoreValue::Array(items) => {
            assert!(matches!(items[0], FirestoreValue::Timestamp(t) if t == now));
            match &items[1] {
                FirestoreValue::Object(f) => {
                    assert!(matches!(f[0].1, FirestoreValue::Timestamp(t) if t == now))
                }
                other => panic!("unexpected value {:?}", other),
            }
        }
        other => panic!("unexpected value {:?}", other),
    }
}

#[test]
fn write_preparation_uses_the_fresh_id_only_for_the_placeholder() {
    let now = Timestamp { seconds: 1, nanos: 0 };
    let item = object(vec![("id", text("user_1")), ("at", text("__fire_ts_now__"))]);
    let doc = prepare_write_with(&item, None, now, "FreshId0000000000001".to_string()).unwrap();
    assert_eq!(doc.id, "FreshId0000000000001");
    assert_eq!(doc.fields[1].0, "at");
    assert!(matches!(doc.fields[1].1, FirestoreValue::Timestamp(t) if t == now));
    let doc = prepare_write_with(&item, Some("id"), now, "FreshId0000000000001".to_string()).unwrap();
    assert_eq!(doc.id, "user_1");
    let (id, value) = prepare_dry_run_at(&item, None, now).unwrap();
    assert_eq!(id, "(generated)");
    assert!(matches!(value, FirestoreValue::Object(ref f) if matches!(f[1].1, FirestoreValue::Timestamp(t) if t == now)));
}

#[test]
fn leap_second_nanos_are_held_within_the_second() {
    let t = Timestamp { seconds: 59, nanos: 1_500_000_000 };
    assert_eq!(t.without_leap_nanos(), Timestamp { seconds: 59, nanos: 999_999_999 });
    let t = Timestamp { seconds: 7, nanos: 5 };
    assert_eq!(t.without_leap_nanos(), t);
    let now = json_firestore_seed::current_time();
    assert!(now.seconds > INSTANT_2024_11_11 && now.nanos < 1_000_000_000);
}
