# usage_poll

A verified library that polls OAuth usage endpoints for an account pool: which
accounts to ask about, how to ask, how to read the answer, and what to note.

- `src/` is the library. Every item is verified with Verus; the calls into
  `serde_json` stand behind the wrappers in `src/json.rs`.
- `app/` is the poller task around it: the HTTP client, the credential files, the
  timer and the log. The embedding server implements `Host`.
- `tests/` runs the library on concrete values.

Utilizations are IEEE 754 binary64 bit patterns (`f64::from_bits`), computed over
integers and proved to be the nearest value to the exact quotient.
