//! Hard constraints: what an intent card claims, and how a trace holds up against it.

use crate::event::{count_kind, TraceEvent};
use crate::json::{
    bool_value, empty_object, get_bool, get_member, get_u64, insert_member, integer_value,
    object_value, Json,
};
use crate::text::{begins_with, same_text};
use vstd::prelude::*;

verus! {

/// Hard constraints extracted from the intent card and applied by [`evaluate`].
#[derive(Debug)]
pub struct HardConstraints {
    /// Forbid any `connect` event in the trace.
    pub deny_network: bool,
    /// Forbid `execve` of binaries outside the hardcoded allowlist.
    pub deny_unsafe_runtime: bool,
    /// Limit the depth of subprocess fanout.
    pub max_subprocess_depth: Option<u32>,
}

/// Output of [`evaluate`]: the `constraints_evaluated` object and the aggregate verdict.
#[derive(Debug)]
pub struct ConstraintsEvaluation {
    /// Per-constraint observations, ready to be embedded in a receipt.
    pub map: serde_json::Map<String, serde_json::Value>,
    /// `"pass"` or `"block"`; `"skipped"` is reserved for the tracer-unavailable path.
    pub verdict: String,
}

/// Targets of `execve` that are considered safe runtime invocations regardless of the
/// `deny_unsafe_runtime` constraint. Anything that begins with none of these counts as an
/// unsafe-runtime observation.
pub const SAFE_RUNTIME_PREFIXES: [&'static str; 5] = [
    "/usr/bin/cargo",
    "/usr/bin/rustc",
    "/usr/bin/git",
    "/usr/bin/sh",
    "/bin/sh",
];

/// Whether `file` begins with one of [`SAFE_RUNTIME_PREFIXES`].
pub open spec fn safe_runtime(file: Seq<char>) -> bool {
    exists|i: int|
        0 <= i < SAFE_RUNTIME_PREFIXES@.len() && (
        #[trigger] SAFE_RUNTIME_PREFIXES@[i])@.is_prefix_of(file)
}

/// Whether `event` is an `execve` of a binary outside the allowlist. One whose target is unknown
/// is.
pub open spec fn unsafe_execve(event: TraceEvent) -> bool {
    event.kind@ == "execve"@ && (match event.file {
        Some(file) => !safe_runtime(file@),
        None => true,
    })
}

/// The events among `events` that are an `execve` of a binary outside the allowlist, in order.
pub open spec fn unsafe_execves(events: Seq<TraceEvent>) -> Seq<TraceEvent> {
    events.filter(|event: TraceEvent| unsafe_execve(event))
}

/// Whether `events` break the ban on network access.
pub open spec fn network_violated(events: Seq<TraceEvent>) -> bool {
    crate::event::of_kind(events, "connect"@).len() > 0
}

/// Whether `events` break the ban on unsafe runtimes.
pub open spec fn runtime_violated(events: Seq<TraceEvent>) -> bool {
    unsafe_execves(events).len() > 0
}

/// Whether `events` hold more subprocess launches than `limit`.
pub open spec fn depth_violated(events: Seq<TraceEvent>, limit: u32) -> bool {
    crate::event::of_kind(events, "execve"@).len() > limit
}

/// Whether `events` break a constraint that `constraints` claims.
pub open spec fn any_violated(events: Seq<TraceEvent>, constraints: HardConstraints) -> bool {
    ||| constraints.deny_network && network_violated(events)
    ||| constraints.deny_unsafe_runtime && runtime_violated(events)
    ||| constraints.max_subprocess_depth is Some && depth_violated(
        events,
        constraints.max_subprocess_depth->0,
    )
}

/// What a receipt says of one constraint: what was claimed, what was observed under the name
/// `observed_name`, and whether the one broke the other.
pub open spec fn constraint_entry(
    claimed: Json,
    observed_name: Seq<char>,
    observed: nat,
    violated: bool,
) -> Json {
    Json::Object(
        map![
            "claimed"@ => claimed,
            observed_name => Json::Integer(observed as int),
            "violated"@ => Json::Bool(violated),
        ],
    )
}

/// What a receipt says of `deny_network`.
pub open spec fn network_entry(events: Seq<TraceEvent>) -> Json {
    constraint_entry(
        Json::Bool(true),
        "connect_events"@,
        crate::event::of_kind(events, "connect"@).len(),
        network_violated(events),
    )
}

/// What a receipt says of `deny_unsafe_runtime`.
pub open spec fn runtime_entry(events: Seq<TraceEvent>) -> Json {
    constraint_entry(
        Json::Bool(true),
        "unsafe_execve_events"@,
        unsafe_execves(events).len(),
        runtime_violated(events),
    )
}

/// What a receipt says of `max_subprocess_depth`. The count of `execve` events stands in for the
/// depth.
pub open spec fn depth_entry(events: Seq<TraceEvent>, limit: u32) -> Json {
    constraint_entry(
        Json::Integer(limit as int),
        "observed_depth"@,
        crate::event::of_kind(events, "execve"@).len(),
        depth_violated(events, limit),
    )
}

/// `entries` with `entry` under `name`, where `claimed`, and `entries` as they are otherwise.
pub open spec fn with_entry(
    entries: Map<Seq<char>, Json>,
    claimed: bool,
    name: Seq<char>,
    entry: Json,
) -> Map<Seq<char>, Json> {
    if claimed {
        entries.insert(name, entry)
    } else {
        entries
    }
}

/// What a receipt says of `events` under `constraints`: one entry for each constraint that is
/// claimed.
pub open spec fn evaluated_entries(
    events: Seq<TraceEvent>,
    constraints: HardConstraints,
) -> Map<Seq<char>, Json> {
    let network = with_entry(
        Map::empty(),
        constraints.deny_network,
        "deny_network"@,
        network_entry(events),
    );
    let runtime = with_entry(
        network,
        constraints.deny_unsafe_runtime,
        "deny_unsafe_runtime"@,
        runtime_entry(events),
    );
    with_entry(
        runtime,
        constraints.max_subprocess_depth is Some,
        "max_subprocess_depth"@,
        depth_entry(events, constraints.max_subprocess_depth->0),
    )
}

/// The verdict on `events` under `constraints`.
pub open spec fn verdict_on(events: Seq<TraceEvent>, constraints: HardConstraints) -> Seq<char> {
    if any_violated(events, constraints) {
        "block"@
    } else {
        "pass"@
    }
}

/// The constraints that claim nothing.
pub open spec fn no_constraints() -> HardConstraints {
    HardConstraints { deny_network: false, deny_unsafe_runtime: false, max_subprocess_depth: None }
}

/// The boolean that `block` holds under `name`, and `false` where it holds none.
pub open spec fn claimed_flag(block: Json, name: Seq<char>) -> bool {
    match block.member(name) {
        Some(member) => member.as_bool() == Some(true),
        None => false,
    }
}

/// The integer that `block` holds under `name`, where it holds one that a `u32` can hold.
pub open spec fn claimed_limit(block: Json, name: Seq<char>) -> Option<u32> {
    match block.member(name) {
        Some(member) => match member.as_u64() {
            Some(n) => limit_of(n),
            None => None,
        },
        None => None,
    }
}

/// `n` as a `u32`, where a `u32` can hold it.
pub open spec fn limit_of(n: u64) -> Option<u32> {
    if n <= u32::MAX {
        Some(n as u32)
    } else {
        None
    }
}

/// What an intent card claims in its `hard_constraints` block.
pub open spec fn claimed_constraints(intent_card: Json) -> HardConstraints {
    match intent_card.member("hard_constraints"@) {
        Some(block) => HardConstraints {
            deny_network: claimed_flag(block, "deny_network"@),
            deny_unsafe_runtime: claimed_flag(block, "deny_unsafe_runtime"@),
            max_subprocess_depth: claimed_limit(block, "max_subprocess_depth"@),
        },
        None => no_constraints(),
    }
}

impl Default for HardConstraints {
    /// Claims nothing.
    fn default() -> (constraints: Self)
        ensures
            constraints == no_constraints(),
    {
        HardConstraints {
            deny_network: false,
            deny_unsafe_runtime: false,
            max_subprocess_depth: None,
        }
    }
}

impl Clone for HardConstraints {
    fn clone(&self) -> (res: Self)
        ensures
            res == *self,
    {
        HardConstraints {
            deny_network: self.deny_network,
            deny_unsafe_runtime: self.deny_unsafe_runtime,
            max_subprocess_depth: self.max_subprocess_depth,
        }
    }
}

impl HardConstraints {
    /// Extracts the `hard_constraints` block from an intent card.
    ///
    /// Only fields that are explicitly present in the card contribute: those that are missing, or
    /// not of the right type, are unclaimed, so that [`evaluate`] omits them. Unknown sibling keys
    /// are tolerated and ignored.
    #[must_use]
    pub fn from_intent_card(intent_card: &serde_json::Value) -> (constraints: Self)
        ensures
            constraints == claimed_constraints(crate::json::json_view(*intent_card)),
    {
        match get_member(intent_card, "hard_constraints") {
            None => HardConstraints::default(),
            Some(block) => {
                let deny_network = match get_member(block, "deny_network") {
                    Some(member) => get_bool(member),
                    None => None,
                };
                let deny_unsafe_runtime = match get_member(block, "deny_unsafe_runtime") {
                    Some(member) => get_bool(member),
                    None => None,
                };
                let max_subprocess_depth = match get_member(block, "max_subprocess_depth") {
                    Some(member) => get_u64(member),
                    None => None,
                };
                HardConstraints::from_fields(
                    deny_network,
                    deny_unsafe_runtime,
                    max_subprocess_depth,
                )
            },
        }
    }

    /// The constraints that the fields of a `hard_constraints` block claim, each of them `None`
    /// where the block has no such field of the right type. A limit that a `u32` cannot hold is
    /// not claimed.
    #[must_use]
    pub fn from_fields(
        deny_network: Option<bool>,
        deny_unsafe_runtime: Option<bool>,
        max_subprocess_depth: Option<u64>,
    ) -> (constraints: Self)
        ensures
            constraints.deny_network == (deny_network == Some(true)),
            constraints.deny_unsafe_runtime == (deny_unsafe_runtime == Some(true)),
            constraints.max_subprocess_depth == (match max_subprocess_depth {
                Some(n) => limit_of(n),
                None => None,
            }),
    {
        HardConstraints {
            deny_network: deny_network.unwrap_or(false),
            deny_unsafe_runtime: deny_unsafe_runtime.unwrap_or(false),
            max_subprocess_depth: match max_subprocess_depth {
                Some(n) => if n <= u32::MAX as u64 {
                    Some(n as u32)
                } else {
                    None
                },
                None => None,
            },
        }
    }
}

impl Clone for ConstraintsEvaluation {
    fn clone(&self) -> (res: Self)
        ensures
            crate::json::object_view(res.map) == crate::json::object_view(self.map),
            res.verdict == self.verdict,
    {
        ConstraintsEvaluation { map: self.map.clone(), verdict: self.verdict.clone() }
    }
}

/// Whether `file` begins with one of [`SAFE_RUNTIME_PREFIXES`].
fn is_safe_runtime(file: &str) -> (safe: bool)
    ensures
        safe == safe_runtime(file@),
{
    let mut i: usize = 0;
    while i < SAFE_RUNTIME_PREFIXES.len()
        invariant
            i <= SAFE_RUNTIME_PREFIXES@.len(),
            forall|j: int|
                0 <= j < i ==> !(#[trigger] SAFE_RUNTIME_PREFIXES@[j])@.is_prefix_of(file@),
        decreases SAFE_RUNTIME_PREFIXES@.len() - i,
    {
        if begins_with(file, SAFE_RUNTIME_PREFIXES[i]) {
            assert(SAFE_RUNTIME_PREFIXES@[i as int]@.is_prefix_of(file@));
            return true;
        }
        i = i + 1;
    }
    false
}

/// The number of events that are an `execve` of a binary outside the allowlist.
pub fn count_unsafe_execves(events: &[TraceEvent]) -> (count: u64)
    ensures
        count == unsafe_execves(events@).len(),
{
    let mut count: u64 = 0;
    let mut i: usize = 0;
    assert(unsafe_execves(events@.take(0)).len() == 0) by {
        reveal(Seq::filter);
    }
    while i < events.len()
        invariant
            i <= events.len(),
            count <= i,
            count == unsafe_execves(events@.take(i as int)).len(),
        decreases events.len() - i,
    {
        proof {
            reveal(Seq::filter);
            assert(events@.take(i + 1).drop_last() =~= events@.take(i as int));
        }
        let event: &TraceEvent = &events[i];
        if same_text(&event.kind, "execve") {
            let safe = match &event.file {
                Some(file) => is_safe_runtime(file),
                None => false,
            };
            if !safe {
                count = count + 1;
            }
        }
        i = i + 1;
    }
    assert(events@.take(i as int) =~= events@);
    count
}

/// The object that a receipt holds for one constraint.
fn entry_value(
    claimed: serde_json::Value,
    observed_name: &str,
    observed: u64,
    violated: bool,
) -> (entry: serde_json::Value)
    ensures
        crate::json::json_view(entry) == constraint_entry(
            crate::json::json_view(claimed),
            observed_name@,
            observed as nat,
            violated,
        ),
{
    let mut entry = empty_object();
    insert_member(&mut entry, "claimed".to_string(), claimed);
    insert_member(&mut entry, observed_name.to_string(), integer_value(observed));
    insert_member(&mut entry, "violated".to_string(), bool_value(violated));
    object_value(entry)
}

/// Evaluates `events` against `constraints`, producing the `constraints_evaluated` object and an
/// aggregate verdict.
///
/// Only constraints that are explicitly claimed in `constraints` appear in the resulting object;
/// this keeps the receipt honest about what the intent card actually asked for. Currently observed
/// constraints:
///
/// - `deny_network`: violated when any `connect` event is present.
/// - `deny_unsafe_runtime`: violated when any `execve` targets a binary outside the
///   [`SAFE_RUNTIME_PREFIXES`] allowlist.
/// - `max_subprocess_depth`: violated when the count of `execve` events exceeds the declared limit
///   (a proxy for subprocess fanout until depth can be told from parent PIDs).
#[must_use]
pub fn evaluate(events: &[TraceEvent], constraints: &HardConstraints) -> (evaluation:
    ConstraintsEvaluation)
    ensures
        crate::json::object_view(evaluation.map) == evaluated_entries(events@, *constraints),
        evaluation.verdict@ == verdict_on(events@, *constraints),
{
    let mut map = empty_object();
    let mut violated_any = false;

    if constraints.deny_network {
        let connect_events: u64 = count_kind(events, "connect");
        let violated = connect_events > 0;
        if violated {
            violated_any = true;
        }
        let entry = entry_value(bool_value(true), "connect_events", connect_events, violated);
        insert_member(&mut map, "deny_network".to_string(), entry);
    }
    if constraints.deny_unsafe_runtime {
        let unsafe_execve_events: u64 = count_unsafe_execves(events);
        let violated = unsafe_execve_events > 0;
        if violated {
            violated_any = true;
        }
        let entry = entry_value(
            bool_value(true),
            "unsafe_execve_events",
            unsafe_execve_events,
            violated,
        );
        insert_member(&mut map, "deny_unsafe_runtime".to_string(), entry);
    }
    if let Some(limit) = constraints.max_subprocess_depth {
        let observed_depth: u64 = count_kind(events, "execve");
        let violated = observed_depth > limit as u64;
        if violated {
            violated_any = true;
        }
        let entry = entry_value(
            integer_value(limit as u64),
            "observed_depth",
            observed_depth,
            violated,
        );
        insert_member(&mut map, "max_subprocess_depth".to_string(), entry);
    }
    let verdict = if violated_any {
        "block".to_string()
    } else {
        "pass".to_string()
    };
    ConstraintsEvaluation { map, verdict }
}

} // verus!
