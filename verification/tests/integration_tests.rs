use json_firestore_seed::{
    get_id, json_to_firestore_value, load_items, plan_batches, prepare_dry_run, validate_target,
    FirestoreValue, SeedError,
};

/// The text of the valid fixture: two users with ids, names and timestamp markers.
const VALID_USERS: &str = r#"[
    {
        "id": "user_1",
        "name": "Alice",
        "created_at": { "__fire_ts_from_date__": "2024-11-11T11:21:56Z" },
        "updated_at": "__fire_ts_now__"
    },
    {
        "id": "user_2",
        "name": "Bob",
        "age": 31
    }
]"#;

const NOT_AN_ARRAY: &str = r#"{ "id": "user_1", "name": "Alice" }"#;

const INVALID_TIMESTAMP: &str = r#"[
    { "name": "Alice", "created_at": { "__fire_ts_from_date__": "not a date" } }
]"#;

fn contains_text(value: &FirestoreValue, wanted: &str) -> bool {
    match value {
        FirestoreValue::String(s) => s == wanted,
        FirestoreValue::Array(items) => items.iter().any(|v| contains_text(v, wanted)),
        FirestoreValue::Object(fields) => fields.iter().any(|(_, v)| contains_text(v, wanted)),
        _ => false,
    }
}

#[test]
fn test_not_an_array_error() {
    let err = load_items(NOT_AN_ARRAY).unwrap_err();
    assert!(err.message().contains("JSON must be an array of objects"));
}

#[test]
fn test_invalid_timestamp_error() {
    let items = load_items(INVALID_TIMESTAMP).unwrap();
    let err = prepare_dry_run(&items[0], None).unwrap_err();
    assert!(err.message().contains("Timestamp parsing failed"));
    let err = json_to_firestore_value(&items[0]).unwrap_err();
    assert!(err.message().contains("Timestamp parsing failed"));
}

#[test]
fn test_file_not_found_error() {
    let err = SeedError::FileNotFound {
        path: "non_existent.json".to_string(),
        source: "No such file or directory (os error 2)".to_string(),
    };
    assert!(err.message().contains("File not found"));
    assert_eq!(err.message(), "File not found: non_existent.json");
}

#[test]
fn test_empty_collection_error() {
    let err = validate_target("", "test-project").unwrap_err();
    assert!(err.message().contains("Collection name cannot be empty"));
}

#[test]
fn test_missing_id_field_error() {
    let items = load_items(VALID_USERS).unwrap();
    let err = prepare_dry_run(&items[0], Some("non_existent_field")).unwrap_err();
    assert!(err
        .message()
        .contains("ID field 'non_existent_field' not found or invalid"));
    let err = get_id(&items[1], Some("non_existent_field")).unwrap_err();
    assert!(err
        .message()
        .contains("ID field 'non_existent_field' not found or invalid"));
}

#[test]
fn test_dry_run_output() {
    assert!(validate_target("test", "test-project").is_ok());
    let items = load_items(VALID_USERS).unwrap();
    let mut shown = Vec::new();
    for (start, end) in plan_batches(items.len(), 1) {
        for item in &items[start..end] {
            shown.push(prepare_dry_run(item, None).unwrap());
        }
    }
    assert_eq!(shown.len(), 2);
    assert!(shown.iter().all(|(id, _)| id == "(generated)"));
    assert!(contains_text(&shown[0].1, "Alice"));
    assert!(contains_text(&shown[1].1, "Bob"));
}

#[test]
fn test_batch_size_dry_run() {
    let items = load_items(VALID_USERS).unwrap();
    let batches = plan_batches(items.len(), 2);
    assert_eq!(batches, vec![(0, 2)]);
    let mut shown = Vec::new();
    for (start, end) in batches {
        for item in &items[start..end] {
            shown.push(prepare_dry_run(item, None).unwrap());
        }
    }
    assert_eq!(shown.len(), 2);
    assert!(shown.iter().all(|(id, _)| id == "(generated)"));
    assert!(contains_text(&shown[0].1, "Alice"));
    assert!(contains_text(&shown[1].1, "Bob"));
}
