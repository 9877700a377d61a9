//! The errors of a seeding run and the text each one is reported with.

use vstd::prelude::*;

verus! {

/// Why a seeding run failed. Each variant keeps, as text, what its report
/// shows of the failure that caused it.
#[derive(Debug)]
pub enum SeedError {
    /// The JSON file could not be read; `source` describes the I/O failure.
    FileNotFound { path: String, source: String },
    /// The file is not valid JSON; the text describes the parse failure.
    JsonParse(String),
    /// The document is valid JSON but its root is not an array.
    NotAJsonArray,
    /// Connecting to Firestore failed.
    AuthError(String),
    /// Writing a batch to the collection failed.
    FirestoreWrite { collection: String, source: String },
    /// A `{"__fire_ts_from_date__": ..}` marker holds a text that is no date.
    TimestampParse { input: String, details: String },
    /// An argument or an item breaks one of the tool's rules.
    ValidationError(String),
}

impl SeedError {
    /// The text that reports this error.
    pub open spec fn spec_message(&self) -> Seq<char> {
        match self {
            SeedError::FileNotFound { path, source } => "File not found: "@ + path@,
            SeedError::JsonParse(details) => "Invalid JSON structure: "@ + details@,
            SeedError::NotAJsonArray => "JSON must be an array of objects"@,
            SeedError::AuthError(details) => "Firestore authentication failed: "@ + details@,
            SeedError::FirestoreWrite { collection, source } => "Firestore write error for collection '"@
                + collection@ + "': "@ + source@,
            SeedError::TimestampParse { input, details } => "Timestamp parsing failed for '"@ + input@
                + "': "@ + details@,
            SeedError::ValidationError(details) => "Validation error: "@ + details@,
        }
    }

    /// Renders the error as the tool reports it.
    pub fn message(&self) -> (text: String)
        ensures
            text@ == self.spec_message(),
    {
        match self {
            SeedError::FileNotFound { path, source } => String::from_str("File not found: ").concat(
                path.as_str(),
            ),
            SeedError::JsonParse(details) => String::from_str("Invalid JSON structure: ").concat(
                details.as_str(),
            ),
            SeedError::NotAJsonArray => String::from_str("JSON must be an array of objects"),
            SeedError::AuthError(details) => String::from_str(
                "Firestore authentication failed: ",
            ).concat(details.as_str()),
            SeedError::FirestoreWrite { collection, source } => String::from_str(
                "Firestore write error for collection '",
            ).concat(collection.as_str()).concat("': ").concat(source.as_str()),
            SeedError::TimestampParse { input, details } => String::from_str(
                "Timestamp parsing failed for '",
            ).concat(input.as_str()).concat("': ").concat(details.as_str()),
            SeedError::ValidationError(details) => String::from_str("Validation error: ").concat(
                details.as_str(),
            ),
        }
    }
}

} // verus!
