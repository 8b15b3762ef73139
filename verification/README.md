# calendar_backend

The backend of a shared calendar whose events are the occurrences of SCADA
schedules (writes of a target value on a PLC tag, once or on a cron), with
the maintenance of the SCADA model behind it: sites, assets, connections
(OPC UA, MQTT, S7), tags and schedules. Users sign in with email and
password and carry an HS256 JWT in the `x-token` header.

## Layout

- `src/` — the library, written in Verus and verified:
  - `text.rs`: Unicode white space, `trim`, blank strings, lower-casing.
  - `json.rs`: the JSON values that payloads carry, with `serde_json`'s
    equality (floats held by their IEEE 754 bits).
  - `error.rs`: `AppError`, its HTTP status, and the `NotFound` answers.
  - `ids.rs`: fresh UUID v4 identifiers.
  - `config.rs`: settings from the environment's values, with Rust's
    integer parsing.
  - `auth/`: the claims' JSON text (written as `serde_json` writes it, and
    proved to determine the claims), JWT signing and checking (the claims
    read back through `serde_json`), sign-in, registration, and the
    `x-token` check.
  - `events/`: event payload checks, the stored record, ownership, and the
    drawn end of an event.
  - `scada/`: the models, the validation of every payload, the step-by-step
    checks of assets and tags, the records a create or update stores, the
    rules those checks keep over the tags table, the answers to what the
    database gives back, and the filtered listings.
- `tests/` — tests of the library, run against the real outside crates.
- `app/` — the axum server around the library: routes, SQLite queries,
  serde copies of the library's types, and `main`.
