//! Receipts: the record of a traced session.

use crate::constraints::ConstraintsEvaluation;
use crate::json::empty_object;
use vstd::prelude::*;

verus! {

/// Schema identifier for the v1 receipt envelope.
pub const RECEIPT_SCHEMA: &'static str = "autobuilder.session_trace_receipt.v1";

/// Top-level receipt body.
#[derive(Debug)]
pub struct SessionTraceReceipt {
    /// Schema URI. Always [`RECEIPT_SCHEMA`].
    pub schema: String,
    /// Git HEAD sha the receipt is digest-bound to.
    pub head_sha: String,
    /// RFC3339 UTC timestamp when the trace was captured.
    pub captured_at: String,
    /// Information about the tracer that produced the underlying NDJSON log.
    pub tracer: TracerInfo,
    /// An entry for each constraint that was claimed, under the constraint's name. Each entry has
    /// three members: `claimed`; what was observed, which is `connect_events` for `deny_network`,
    /// `unsafe_execve_events` for `deny_unsafe_runtime` and `observed_depth` for
    /// `max_subprocess_depth`; and `violated`.
    pub constraints_evaluated: serde_json::Map<String, serde_json::Value>,
    /// One of `"pass"`, `"concern"`, `"block"` and `"skipped"`.
    pub verdict: String,
    /// Why the tracer was unusable, when `verdict` is `"skipped"`.
    pub skip_reason: Option<String>,
    /// Free-form notes the evaluator wants attached.
    pub notes: Vec<String>,
}

/// Tracer provenance.
#[derive(Debug)]
pub struct TracerInfo {
    /// Tool name. Always `"ctrace"` for v1.
    pub tool: String,
    /// Tracer version string, when known.
    pub version: Option<String>,
    /// Root PID the trace was anchored to.
    pub root_pid: Option<u32>,
    /// `sha256` hex of the raw NDJSON log; empty string when the verdict is `"skipped"`.
    pub log_sha256: String,
    /// Absolute path to the raw NDJSON log on disk.
    pub log_path: String,
    /// Number of NDJSON event lines in the log.
    pub event_count: u64,
}

impl Clone for TracerInfo {
    fn clone(&self) -> (res: Self)
        ensures
            res == *self,
    {
        TracerInfo {
            tool: self.tool.clone(),
            version: self.version.clone(),
            root_pid: self.root_pid,
            log_sha256: self.log_sha256.clone(),
            log_path: self.log_path.clone(),
            event_count: self.event_count,
        }
    }
}

impl Clone for SessionTraceReceipt {
    fn clone(&self) -> (res: Self)
        ensures
            res.schema == self.schema,
            res.head_sha == self.head_sha,
            res.captured_at == self.captured_at,
            res.tracer == self.tracer,
            crate::json::object_view(res.constraints_evaluated) == crate::json::object_view(
                self.constraints_evaluated,
            ),
            res.verdict == self.verdict,
            res.skip_reason == self.skip_reason,
            res.notes@ == self.notes@,
    {
        SessionTraceReceipt {
            schema: self.schema.clone(),
            head_sha: self.head_sha.clone(),
            captured_at: self.captured_at.clone(),
            tracer: self.tracer.clone(),
            constraints_evaluated: self.constraints_evaluated.clone(),
            verdict: self.verdict.clone(),
            skip_reason: self.skip_reason.clone(),
            notes: self.notes.clone(),
        }
    }
}

/// Whether the receipt gives a reason for having been skipped exactly where it was skipped.
pub open spec fn skip_is_explained(receipt: SessionTraceReceipt) -> bool {
    receipt.verdict@ == "skipped"@ <==> receipt.skip_reason is Some
}

/// Builds a populated [`SessionTraceReceipt`] from evaluator output.
#[must_use]
pub fn build_receipt(
    head_sha: String,
    captured_at: String,
    tracer: TracerInfo,
    eval: ConstraintsEvaluation,
    notes: Vec<String>,
) -> (receipt: SessionTraceReceipt)
    ensures
        receipt.schema@ == RECEIPT_SCHEMA@,
        receipt.head_sha == head_sha,
        receipt.captured_at == captured_at,
        receipt.tracer == tracer,
        receipt.constraints_evaluated == eval.map,
        receipt.verdict == eval.verdict,
        receipt.skip_reason == None::<String>,
        receipt.notes == notes,
        eval.verdict@ != "skipped"@ ==> skip_is_explained(receipt),
{
    SessionTraceReceipt {
        schema: RECEIPT_SCHEMA.to_string(),
        head_sha,
        captured_at,
        tracer,
        constraints_evaluated: eval.map,
        verdict: eval.verdict,
        skip_reason: None,
        notes,
    }
}

/// Builds a receipt with the verdict `"skipped"`, for the tracer-unavailable path.
#[must_use]
pub fn skipped_receipt(head_sha: String, captured_at: String, reason: &str) -> (receipt:
    SessionTraceReceipt)
    ensures
        receipt.schema@ == RECEIPT_SCHEMA@,
        receipt.head_sha == head_sha,
        receipt.captured_at == captured_at,
        receipt.tracer.tool@ == "ctrace"@,
        receipt.tracer.version == None::<String>,
        receipt.tracer.root_pid == None::<u32>,
        receipt.tracer.log_sha256@ == Seq::<char>::empty(),
        receipt.tracer.log_path@ == Seq::<char>::empty(),
        receipt.tracer.event_count == 0,
        crate::json::object_view(receipt.constraints_evaluated) == (Map::<
            Seq<char>,
            crate::json::Json,
        >::empty()),
        receipt.verdict@ == "skipped"@,
        receipt.skip_reason is Some,
        receipt.skip_reason->0@ == reason@,
        receipt.notes@ == Seq::<String>::empty(),
        skip_is_explained(receipt),
{
    SessionTraceReceipt {
        schema: RECEIPT_SCHEMA.to_string(),
        head_sha,
        captured_at,
        tracer: TracerInfo {
            tool: "ctrace".to_string(),
            version: None,
            root_pid: None,
            log_sha256: String::new(),
            log_path: String::new(),
            event_count: 0,
        },
        constraints_evaluated: empty_object(),
        verdict: "skipped".to_string(),
        skip_reason: Some(reason.to_string()),
        notes: Vec::new(),
    }
}

} // verus!
