# session-trace-receipt

Proves runtime-level compliance with hard constraints that are invisible to source review: a
syscall-level trace of a session is held against what an intent card claims (`deny_network`,
`deny_unsafe_runtime`, `max_subprocess_depth`), and the outcome is recorded in an
`autobuilder.session_trace_receipt.v1` receipt.

The library is written in [Verus](https://github.com/verus-lang/verus): what each function returns
is stated in its contract and proved. What is trusted and not proved: the contracts of the functions
in `src/json.rs` and `src/digest.rs` that call `serde_json` and `sha2`, of `serde_json::Map`'s
`clone`, and of `String::push`. The doc comment of each says what it claims.

- `src/event.rs`: trace events, how they are read from a log, filtered and counted.
- `src/constraints.rs`: what an intent card claims, and the evaluation of a trace against it.
- `src/receipt.rs`: receipts, populated and skipped.
- `src/log.rs`: the digest and the event count of a log that is read piece by piece.
- `src/text.rs`: white space and lines.
- `src/json.rs`, `src/digest.rs`: JSON values from `serde_json`, SHA-256 from `sha2`.
- `src/laws.rs`, `src/log_laws.rs`: what holds of the library as a whole.
- `app/`: the binary, the serialized form of the types, and logs on disk.
