# riversd (verified core)

The decision logic of the rivers daemon, written in Verus: every function in
`src/` carries a contract that Verus proves, and the properties that span
several calls are stated and proved as `law_*` proof functions.

- `src/` — the verified library: rate limiting, request routing rules, the
  security and admin-authentication verdicts, OTLP ingestion, SQL placeholder
  rewriting, ES-module detection and resolution rules, path redaction,
  JavaScript proxy generation, the handler-task rules of the V8 and WASM
  engines, and the text processing they rest on. Calls into `flate2`,
  `serde_json`, `percent-encoding`, `sha2`, `hmac`, `hex`, `bcrypt`,
  `base64`, `rand` and `swc_sourcemap` go through small trusted wrappers
  whose contracts are documented next to them.
- `tests/` — tests on concrete values, one file per area.
- `app/` — what cannot be verified: the Prometheus metrics (floating point,
  `metrics` macros) and the conversions between `serde_json` values and the
  library's plain types.
