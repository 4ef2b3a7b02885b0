//! `session-trace-receipt`: evaluates ctrace NDJSON syscall traces against an intent card's
//! `hard_constraints` and builds an `autobuilder.session_trace_receipt.v1` receipt.
//!
//! The usual way through the library: read a log into [`TraceEvent`]s with [`parse_ndjson`], take
//! the [`HardConstraints`] from an intent card, hold the one against the other with [`evaluate`],
//! and build a [`SessionTraceReceipt`] with [`build_receipt`] (or [`skipped_receipt`] when the
//! tracer was unavailable). A [`LogScan`] gives the [`TracerInfo`] of a log.
//!
//! What holds of the library as a whole is stated and proved in [`laws`] and [`log_laws`].

pub mod constraints;
pub mod digest;
pub mod event;
pub mod json;
pub mod laws;
pub mod log;
pub mod log_laws;
pub mod receipt;
pub mod text;

pub use constraints::{
    count_unsafe_execves, evaluate, ConstraintsEvaluation, HardConstraints, SAFE_RUNTIME_PREFIXES,
};
pub use digest::{hex_string, nibble_to_hex, sha256_hex, MAX_MESSAGE_LEN};
pub use event::{count_kind, filter_events, keep_decoded, parse_ndjson, TraceEvent};
pub use log::LogScan;
pub use receipt::{
    build_receipt, skipped_receipt, SessionTraceReceipt, TracerInfo, RECEIPT_SCHEMA,
};
pub use text::{event_lines, is_blank, is_whitespace};
