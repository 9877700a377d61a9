//! Verified core of a tool that seeds a Firestore collection from a JSON
//! document: the JSON model, the conversion of JSON into Firestore values with
//! timestamp markers, document ids, batching, retry delays and error reports.

pub mod document;
pub mod error;
pub mod firestore_value;
pub mod json;
pub mod seeding;
pub mod timestamp;

pub use document::{
    decimal_string, document_fields, document_items, generate_random_id, get_id, prepare_dry_run,
    prepare_dry_run_at, prepare_write, prepare_write_with, PreparedDocument,
};
pub use error::SeedError;
pub use firestore_value::{json_to_firestore_value, json_to_firestore_value_at, parse_date_marker, timestamp_from_naive_readings, FirestoreValue};
pub use json::{load_items, parse_json_document, items_from_parse, JsonNumber, JsonValue, NumberEncoding};
pub use seeding::{plan_batches, retry_delays, summarize, validate_target, RunSummary};
pub use timestamp::{current_time, Timestamp};
