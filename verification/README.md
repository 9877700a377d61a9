# json_firestore_seed

Seeds a Google Firestore collection from a JSON file that holds an array of
documents. The library in `src/` is verified with Verus; `app/` is the command
line around it (argument parsing, file and network I/O, progress output).

- `json`: the model of a parsed JSON value, the parse of a JSON file's text
  into it (through serde_json) and the lookups the tool makes on it.
- `firestore_value`: Firestore values and the conversion of JSON into them,
  with the markers `"__fire_ts_now__"` (the current time, one clock reading per converted document) and
  `{"__fire_ts_from_date__": "<date>"}`: an RFC 3339 date, or one of the
  naive forms `%Y-%m-%d %H:%M:%S`, `%Y-%m-%d %H:%M:%S%.f`,
  `%Y-%m-%dT%H:%M:%S%.f`, `%Y-%m-%d %H:%M`, `%Y-%m-%dT%H:%M`, read as UTC.
- `timestamp`: instants, read from text and from the clock through chrono.
- `document`: document ids (from an id field, or random), the fields written
  for an item, and the preview of a dry run.
- `seeding`: the checks on the target, the batches, the retry delays and the
  tally of a run.
- `error`: the errors of a run and their reports.
