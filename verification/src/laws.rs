//! What holds of the library as a whole.
//!
//! Where a law requires `call_ensures(f, arguments, result)`, it speaks of every result that `f` may
//! give for those arguments.

use crate::constraints::{
    count_unsafe_execves, evaluate, ConstraintsEvaluation, HardConstraints, SAFE_RUNTIME_PREFIXES,
};
use crate::event::{count_kind, filter_events, TraceEvent};
use crate::json::Json;
use crate::receipt::{
    build_receipt, skipped_receipt, SessionTraceReceipt, TracerInfo, RECEIPT_SCHEMA,
};
use vstd::multiset::Multiset;
use vstd::prelude::*;

verus! {

/// Whether `constraints` claims the constraint called `name`.
pub open spec fn claims(constraints: HardConstraints, name: Seq<char>) -> bool {
    ||| name == "deny_network"@ && constraints.deny_network
    ||| name == "deny_unsafe_runtime"@ && constraints.deny_unsafe_runtime
    ||| name == "max_subprocess_depth"@ && constraints.max_subprocess_depth is Some
}

/// Whether the entry of a receipt says that its constraint was violated.
pub open spec fn says_violated(entry: Json) -> bool {
    entry.member("violated"@) == Some(Json::Bool(true))
}

proof fn lemma_names_differ()
    ensures
        "deny_network"@ != "deny_unsafe_runtime"@,
        "deny_network"@ != "max_subprocess_depth"@,
        "deny_unsafe_runtime"@ != "max_subprocess_depth"@,
        "claimed"@ != "violated"@,
        "connect_events"@ != "claimed"@,
        "connect_events"@ != "violated"@,
        "unsafe_execve_events"@ != "claimed"@,
        "unsafe_execve_events"@ != "violated"@,
        "observed_depth"@ != "claimed"@,
        "observed_depth"@ != "violated"@,
{
    reveal_strlit("deny_network");
    reveal_strlit("deny_unsafe_runtime");
    reveal_strlit("max_subprocess_depth");
    reveal_strlit("claimed");
    reveal_strlit("violated");
    reveal_strlit("connect_events");
    reveal_strlit("unsafe_execve_events");
    reveal_strlit("observed_depth");
    assert("deny_network"@.len() == 12 && "deny_unsafe_runtime"@.len() == 19);
    assert("max_subprocess_depth"@.len() == 20);
    assert("claimed"@.len() == 7 && "violated"@.len() == 8);
    assert("connect_events"@.len() == 14 && "unsafe_execve_events"@.len() == 20);
    assert("observed_depth"@.len() == 14);
}

proof fn lemma_verdicts_differ()
    ensures
        "block"@ != "pass"@,
        "block"@ != "skipped"@,
        "pass"@ != "skipped"@,
{
    reveal_strlit("block");
    reveal_strlit("pass");
    reveal_strlit("skipped");
    assert("block"@.len() == 5 && "pass"@.len() == 4 && "skipped"@.len() == 7);
}

/// A receipt has an entry for each constraint that is claimed, and for nothing else.
pub proof fn law_entries_are_the_claimed_constraints(
    events: Seq<TraceEvent>,
    constraints: HardConstraints,
    name: Seq<char>,
)
    ensures
        crate::constraints::evaluated_entries(events, constraints).contains_key(name) <==> claims(
            constraints,
            name,
        ),
{
}

/// Each entry of a receipt holds what was claimed, what was observed and whether the constraint
/// was violated, and nothing else.
pub proof fn law_entries_are_complete(events: Seq<TraceEvent>, constraints: HardConstraints)
    ensures
        ({
            let entries = crate::constraints::evaluated_entries(events, constraints);
            &&& constraints.deny_network ==> is_entry(
                entries["deny_network"@],
                Json::Bool(true),
                "connect_events"@,
                crate::event::of_kind(events, "connect"@).len(),
                crate::constraints::network_violated(events),
            )
            &&& constraints.deny_unsafe_runtime ==> is_entry(
                entries["deny_unsafe_runtime"@],
                Json::Bool(true),
                "unsafe_execve_events"@,
                crate::constraints::unsafe_execves(events).len(),
                crate::constraints::runtime_violated(events),
            )
            &&& constraints.max_subprocess_depth matches Some(limit) ==> is_entry(
                entries["max_subprocess_depth"@],
                Json::Integer(limit as int),
                "observed_depth"@,
                crate::event::of_kind(events, "execve"@).len(),
                crate::constraints::depth_violated(events, limit),
            )
        }),
{
    lemma_names_differ();
}

/// Whether `entry` is an object of three members: `claimed`, `observed_name` and `violated`, with
/// the given values.
pub open spec fn is_entry(
    entry: Json,
    claimed: Json,
    observed_name: Seq<char>,
    observed: nat,
    violated: bool,
) -> bool {
    &&& entry is Object
    &&& forall|name: Seq<char>| #[trigger]
        entry.member(name) is Some <==> name == "claimed"@ || name == observed_name || name
            == "violated"@
    &&& entry.member("claimed"@) == Some(claimed)
    &&& entry.member(observed_name) == Some(Json::Integer(observed as int))
    &&& entry.member("violated"@) == Some(Json::Bool(violated))
}

/// The verdict is `"block"` exactly where some entry of the receipt says that its constraint was
/// violated, and `"pass"` otherwise. It is never `"skipped"`.
pub proof fn law_verdict_follows_from_the_entries(
    events: Seq<TraceEvent>,
    constraints: HardConstraints,
)
    ensures
        ({
            let entries = crate::constraints::evaluated_entries(events, constraints);
            let verdict = crate::constraints::verdict_on(events, constraints);
            &&& verdict == "block"@ <==> exists|name: Seq<char>|
                entries.contains_key(name) && says_violated(#[trigger] entries[name])
            &&& verdict == "pass"@ <==> forall|name: Seq<char>|
                entries.contains_key(name) ==> !says_violated(#[trigger] entries[name])
            &&& verdict != "skipped"@
        }),
{
    lemma_names_differ();
    lemma_verdicts_differ();
    let entries = crate::constraints::evaluated_entries(events, constraints);
    assert(constraints.deny_network ==> says_violated(entries["deny_network"@])
        == crate::constraints::network_violated(events));
    assert(constraints.deny_unsafe_runtime ==> says_violated(entries["deny_unsafe_runtime"@])
        == crate::constraints::runtime_violated(events));
    assert(constraints.max_subprocess_depth matches Some(limit) ==> says_violated(
        entries["max_subprocess_depth"@],
    ) == crate::constraints::depth_violated(events, limit));
}

/// Where network access is denied and the trace holds a `connect` event, the verdict is
/// `"block"`.
pub proof fn law_connect_blocks_where_network_is_denied(
    events: Seq<TraceEvent>,
    constraints: HardConstraints,
    i: int,
)
    requires
        constraints.deny_network,
        0 <= i < events.len(),
        events[i].kind@ == "connect"@,
    ensures
        crate::constraints::verdict_on(events, constraints) == "block"@,
{
    events.lemma_filter_contains(crate::event::has_kind("connect"@), i);
}

/// Where unsafe runtimes are denied and the trace holds an `execve` of a binary outside the
/// allowlist, the verdict is `"block"`.
pub proof fn law_unsafe_execve_blocks_where_runtime_is_denied(
    events: Seq<TraceEvent>,
    constraints: HardConstraints,
    i: int,
)
    requires
        constraints.deny_unsafe_runtime,
        0 <= i < events.len(),
        crate::constraints::unsafe_execve(events[i]),
    ensures
        crate::constraints::verdict_on(events, constraints) == "block"@,
{
    events.lemma_filter_contains(|event: TraceEvent| crate::constraints::unsafe_execve(event), i);
}

/// Where nothing is claimed, every trace passes, and the receipt has no entries.
pub proof fn law_no_claims_always_pass(events: Seq<TraceEvent>)
    ensures
        crate::constraints::verdict_on(events, crate::constraints::no_constraints()) == "pass"@,
        crate::constraints::evaluated_entries(events, crate::constraints::no_constraints())
            == Map::<Seq<char>, Json>::empty(),
{
}

/// What an evaluation looks at in an event: its type, and the target that it may have.
pub open spec fn observable(event: TraceEvent) -> (Seq<char>, Option<Seq<char>>) {
    (
        event.kind@,
        match event.file {
            Some(file) => Some(file@),
            None => None,
        },
    )
}

/// What an evaluation looks at in a trace, with no regard to order.
pub open spec fn observables(events: Seq<TraceEvent>) -> Multiset<
    (Seq<char>, Option<Seq<char>>),
> {
    events.map_values(|event: TraceEvent| observable(event)).to_multiset()
}

proof fn lemma_filter_of_map<A, B>(
    s: Seq<A>,
    f: spec_fn(A) -> B,
    p: spec_fn(A) -> bool,
    q: spec_fn(B) -> bool,
)
    requires
        forall|x: A| #[trigger] p(x) == q(f(x)),
    ensures
        s.filter(p).len() == s.map_values(f).filter(q).len(),
    decreases s.len(),
{
    reveal(Seq::filter);
    if s.len() > 0 {
        lemma_filter_of_map(s.drop_last(), f, p, q);
        assert(s.map_values(f).drop_last() =~= s.drop_last().map_values(f));
        assert(p(s.last()) == q(f(s.last())));
    }
}

proof fn lemma_filter_of_more<A>(a: Seq<A>, b: Seq<A>, q: spec_fn(A) -> bool)
    requires
        a.to_multiset().subset_of(b.to_multiset()),
    ensures
        a.filter(q).len() <= b.filter(q).len(),
    decreases a.len(),
{
    a.to_multiset_ensures();
    b.to_multiset_ensures();
    reveal(Seq::filter);
    if a.len() > 0 {
        let n = a.len() - 1;
        let x = a[n];
        assert(a.to_multiset().count(x) > 0);
        assert(b.to_multiset().count(x) > 0);
        let j = b.index_of(x);
        assert(a.remove(n).to_multiset().subset_of(b.remove(j).to_multiset()));
        lemma_filter_of_more(a.remove(n), b.remove(j), q);
        assert(a.remove(n) =~= a.drop_last());
        assert(b =~= b.take(j) + seq![x] + b.skip(j + 1));
        Seq::filter_distributes_over_add(b.take(j) + seq![x], b.skip(j + 1), q);
        Seq::filter_distributes_over_add(b.take(j), seq![x], q);
        assert(seq![x].drop_last() =~= Seq::empty());
        assert(b.remove(j) =~= b.take(j) + b.skip(j + 1));
        Seq::filter_distributes_over_add(b.take(j), b.skip(j + 1), q);
    }
}

proof fn lemma_counts_of_more(a: Seq<TraceEvent>, b: Seq<TraceEvent>)
    requires
        observables(a).subset_of(observables(b)),
    ensures
        forall|kind: Seq<char>| #[trigger]
            crate::event::of_kind(a, kind).len() <= crate::event::of_kind(b, kind).len(),
        crate::constraints::unsafe_execves(a).len() <= crate::constraints::unsafe_execves(b).len(),
{
    let f = |event: TraceEvent| observable(event);
    assert forall|kind: Seq<char>| #[trigger]
        crate::event::of_kind(a, kind).len() <= crate::event::of_kind(b, kind).len() by {
        let q = |seen: (Seq<char>, Option<Seq<char>>)| seen.0 == kind;
        lemma_filter_of_map(a, f, crate::event::has_kind(kind), q);
        lemma_filter_of_map(b, f, crate::event::has_kind(kind), q);
        lemma_filter_of_more(a.map_values(f), b.map_values(f), q);
    }
    let p = |event: TraceEvent| crate::constraints::unsafe_execve(event);
    let q = |seen: (Seq<char>, Option<Seq<char>>)|
        seen.0 == "execve"@ && (match seen.1 {
            Some(file) => !crate::constraints::safe_runtime(file),
            None => true,
        });
    lemma_filter_of_map(a, f, p, q);
    lemma_filter_of_map(b, f, p, q);
    lemma_filter_of_more(a.map_values(f), b.map_values(f), q);
}

/// Whether `entry` reports the same claim as `other`, no lower count, and a violation where
/// `other` does.
pub open spec fn reports_no_less(entry: Json, other: Json) -> bool {
    &&& entry.member("claimed"@) == other.member("claimed"@)
    &&& says_violated(other) ==> says_violated(entry)
    &&& forall|name: Seq<char>|
        (#[trigger] other.member(name)) matches Some(Json::Integer(m)) ==> (entry.member(
            name,
        ) matches Some(Json::Integer(n)) && m <= n)
}

/// What a trace broke, a trace that holds its events and more, in any order, breaks too: each
/// entry of the receipt reports no less, and the verdict stays `"block"` where it was.
pub proof fn law_more_events_excuse_nothing(
    events: Seq<TraceEvent>,
    more: Seq<TraceEvent>,
    constraints: HardConstraints,
)
    requires
        observables(events).subset_of(observables(more)),
    ensures
        forall|name: Seq<char>|
            crate::constraints::evaluated_entries(events, constraints).contains_key(name)
                ==> crate::constraints::evaluated_entries(more, constraints).contains_key(name)
                && reports_no_less(
                #[trigger] crate::constraints::evaluated_entries(more, constraints)[name],
                crate::constraints::evaluated_entries(events, constraints)[name],
            ),
        crate::constraints::verdict_on(events, constraints) == "block"@
            ==> crate::constraints::verdict_on(more, constraints) == "block"@,
{
    lemma_names_differ();
    lemma_verdicts_differ();
    lemma_counts_of_more(events, more);
}

/// What a receipt says of a trace depends on nothing but the types and the targets of its events,
/// and not on their order.
pub proof fn law_only_types_and_targets_matter(
    a: Seq<TraceEvent>,
    b: Seq<TraceEvent>,
    constraints: HardConstraints,
)
    requires
        observables(a) == observables(b),
    ensures
        crate::constraints::evaluated_entries(a, constraints)
            == crate::constraints::evaluated_entries(b, constraints),
        crate::constraints::verdict_on(a, constraints) == crate::constraints::verdict_on(
            b,
            constraints,
        ),
{
    lemma_counts_of_more(a, b);
    lemma_counts_of_more(b, a);
    assert(crate::event::of_kind(a, "connect"@).len() == crate::event::of_kind(
        b,
        "connect"@,
    ).len());
    assert(crate::event::of_kind(a, "execve"@).len() == crate::event::of_kind(b, "execve"@).len());
}

/// Whether `weak` claims no more than `strong`.
pub open spec fn weaker(weak: HardConstraints, strong: HardConstraints) -> bool {
    &&& weak.deny_network ==> strong.deny_network
    &&& weak.deny_unsafe_runtime ==> strong.deny_unsafe_runtime
    &&& weak.max_subprocess_depth matches Some(limit) ==> strong.max_subprocess_depth is Some
        && strong.max_subprocess_depth->0 <= limit
}

/// A trace that passes under some constraints passes under weaker ones.
pub proof fn law_weaker_constraints_pass(
    events: Seq<TraceEvent>,
    weak: HardConstraints,
    strong: HardConstraints,
)
    requires
        weaker(weak, strong),
        crate::constraints::verdict_on(events, strong) == "pass"@,
    ensures
        crate::constraints::verdict_on(events, weak) == "pass"@,
{
    lemma_verdicts_differ();
}

/// A card without a `hard_constraints` block claims nothing.
pub proof fn law_card_without_block_claims_nothing(intent_card: Json)
    requires
        intent_card.member("hard_constraints"@) is None,
    ensures
        crate::constraints::claimed_constraints(intent_card)
            == crate::constraints::no_constraints(),
{
}

/// A card claims a constraint only where its `hard_constraints` block declares it.
pub proof fn law_card_claims_only_what_it_declares(intent_card: Json, name: Seq<char>)
    requires
        claims(crate::constraints::claimed_constraints(intent_card), name),
    ensures
        intent_card.member("hard_constraints"@) is Some,
        (intent_card.member("hard_constraints"@)->0).member(name) is Some,
{
}

/// A card claims a ban exactly where its block declares it as `true`, and a limit exactly where its
/// block declares an integer that a `u32` can hold, which is then the limit.
pub proof fn law_declarations_are_claimed(intent_card: Json, block: Json)
    requires
        intent_card.member("hard_constraints"@) == Some(block),
    ensures
        ({
            let constraints = crate::constraints::claimed_constraints(intent_card);
            &&& constraints.deny_network <==> block.member("deny_network"@) == Some(
                Json::Bool(true),
            )
            &&& constraints.deny_unsafe_runtime <==> block.member("deny_unsafe_runtime"@) == Some(
                Json::Bool(true),
            )
            &&& forall|limit: u32| #[trigger]
                is_limit(constraints, limit) <==> block.member("max_subprocess_depth"@) == Some(
                    Json::Integer(limit as int),
                )
        }),
{
}

/// Whether `constraints` claims the limit `limit`.
pub open spec fn is_limit(constraints: HardConstraints, limit: u32) -> bool {
    constraints.max_subprocess_depth == Some(limit)
}

/// What a card claims depends on nothing but the three constraints in its `hard_constraints`
/// block: other members of the block, and of the card, are ignored.
pub proof fn law_unknown_members_are_ignored(a: Json, b: Json)
    requires
        a.member("hard_constraints"@) is Some,
        b.member("hard_constraints"@) is Some,
        forall|name: Seq<char>|
            name == "deny_network"@ || name == "deny_unsafe_runtime"@ || name
                == "max_subprocess_depth"@ ==> #[trigger] (a.member(
                "hard_constraints"@,
            )->0).member(name) == (b.member("hard_constraints"@)->0).member(name),
    ensures
        crate::constraints::claimed_constraints(a) == crate::constraints::claimed_constraints(b),
{
}

proof fn lemma_filter_of_filter<A>(s: Seq<A>, p: spec_fn(A) -> bool, q: spec_fn(A) -> bool)
    requires
        forall|x: A| #[trigger] q(x) ==> p(x),
    ensures
        s.filter(p).filter(q) == s.filter(q),
    decreases s.len(),
{
    reveal(Seq::filter);
    if s.len() > 0 {
        lemma_filter_of_filter(s.drop_last(), p, q);
        if p(s.last()) {
            assert(s.filter(p).drop_last() =~= s.drop_last().filter(p));
        }
    }
}

/// Filtering by the same types a second time changes nothing.
pub proof fn law_filtering_twice_changes_nothing(
    events: Seq<TraceEvent>,
    allowed_types: Seq<&str>,
)
    ensures
        crate::event::allowed_events(
            crate::event::allowed_events(events, allowed_types),
            allowed_types,
        ) == crate::event::allowed_events(events, allowed_types),
{
    let p = crate::event::has_allowed_kind(allowed_types);
    lemma_filter_of_filter(events, p, p);
}

/// Filtering keeps, of each type that is allowed, every event, and none of any other type.
pub proof fn law_filtering_keeps_allowed_types(
    events: Seq<TraceEvent>,
    allowed_types: Seq<&str>,
    kind: Seq<char>,
)
    ensures
        crate::event::of_kind(crate::event::allowed_events(events, allowed_types), kind)
            == if crate::event::is_allowed(kind, allowed_types) {
            crate::event::of_kind(events, kind)
        } else {
            Seq::empty()
        },
{
    let p = crate::event::has_allowed_kind(allowed_types);
    let q = crate::event::has_kind(kind);
    if crate::event::is_allowed(kind, allowed_types) {
        lemma_filter_of_filter(events, p, q);
    } else {
        let kept = events.filter(p);
        assert forall|i: int| 0 <= i < kept.len() implies !q(#[trigger] kept[i]) by {
            events.lemma_filter_pred(p, i);
        }
        kept.lemma_all_neg_filter_empty(q);
        assert(kept.filter(q) =~= Seq::empty());
    }
}

/// A filter that lets `connect` and `execve` events through does not change what a receipt says.
pub proof fn law_filtering_keeps_the_evaluation(
    events: Seq<TraceEvent>,
    allowed_types: Seq<&str>,
    constraints: HardConstraints,
)
    requires
        crate::event::is_allowed("connect"@, allowed_types),
        crate::event::is_allowed("execve"@, allowed_types),
    ensures
        crate::constraints::evaluated_entries(
            crate::event::allowed_events(events, allowed_types),
            constraints,
        ) == crate::constraints::evaluated_entries(events, constraints),
        crate::constraints::verdict_on(
            crate::event::allowed_events(events, allowed_types),
            constraints,
        ) == crate::constraints::verdict_on(events, constraints),
{
    law_filtering_keeps_allowed_types(events, allowed_types, "connect"@);
    law_filtering_keeps_allowed_types(events, allowed_types, "execve"@);
    lemma_filter_of_filter(
        events,
        crate::event::has_allowed_kind(allowed_types),
        |event: TraceEvent| crate::constraints::unsafe_execve(event),
    );
}

/// The allowlist holds five prefixes and no other.
pub proof fn law_allowlist()
    ensures
        SAFE_RUNTIME_PREFIXES@.len() == 5,
        SAFE_RUNTIME_PREFIXES@[0]@ == "/usr/bin/cargo"@,
        SAFE_RUNTIME_PREFIXES@[1]@ == "/usr/bin/rustc"@,
        SAFE_RUNTIME_PREFIXES@[2]@ == "/usr/bin/git"@,
        SAFE_RUNTIME_PREFIXES@[3]@ == "/usr/bin/sh"@,
        SAFE_RUNTIME_PREFIXES@[4]@ == "/bin/sh"@,
{
}

proof fn lemma_filter_counts_places<A>(s: Seq<A>, p: spec_fn(A) -> bool)
    ensures
        Set::new(|i: int| 0 <= i < s.len() && p(s[i])).finite(),
        Set::new(|i: int| 0 <= i < s.len() && p(s[i])).len() == s.filter(p).len(),
    decreases s.len(),
{
    reveal(Seq::filter);
    let places = Set::new(|i: int| 0 <= i < s.len() && p(s[i]));
    if s.len() == 0 {
        assert(places =~= Set::empty());
    } else {
        let n = s.len() - 1;
        let init = s.drop_last();
        let before = Set::new(|i: int| 0 <= i < init.len() && p(init[i]));
        lemma_filter_counts_places(init, p);
        if p(s.last()) {
            assert(places =~= before.insert(n));
        } else {
            assert(places =~= before);
        }
    }
}

/// `count_kind` gives the number of places in the trace at which an event of the given type
/// stands.
pub proof fn law_kinds_are_counted(events: &[TraceEvent], kind: &str, count: u64)
    requires
        call_ensures(count_kind, (events, kind), count),
    ensures
        Set::new(|i: int| 0 <= i < events@.len() && events@[i].kind@ == kind@).finite(),
        count == Set::new(|i: int| 0 <= i < events@.len() && events@[i].kind@ == kind@).len(),
{
    let p = crate::event::has_kind(kind@);
    lemma_filter_counts_places(events@, p);
    assert(Set::new(|i: int| 0 <= i < events@.len() && events@[i].kind@ == kind@) =~= Set::new(
        |i: int| 0 <= i < events@.len() && p(events@[i]),
    ));
}

/// `count_unsafe_execves` gives the number of places in the trace at which an `execve` stands whose
/// target is unknown or begins with no prefix of the allowlist.
pub proof fn law_unsafe_execves_are_counted(events: &[TraceEvent], count: u64)
    requires
        call_ensures(count_unsafe_execves, (events,), count),
    ensures
        ({
            let places = Set::new(
                |i: int|
                    0 <= i < events@.len() && events@[i].kind@ == "execve"@ && (
                    events@[i].file matches Some(file) ==> forall|k: int|
                        0 <= k < SAFE_RUNTIME_PREFIXES@.len() ==> !(
                        #[trigger] SAFE_RUNTIME_PREFIXES@[k])@.is_prefix_of(file@)),
            );
            places.finite() && count == places.len()
        }),
{
    let p = |event: TraceEvent| crate::constraints::unsafe_execve(event);
    lemma_filter_counts_places(events@, p);
    let places = Set::new(
        |i: int|
            0 <= i < events@.len() && events@[i].kind@ == "execve"@ && (
            events@[i].file matches Some(file) ==> forall|k: int|
                0 <= k < SAFE_RUNTIME_PREFIXES@.len() ==> !(
                #[trigger] SAFE_RUNTIME_PREFIXES@[k])@.is_prefix_of(file@)),
    );
    assert(places =~= Set::new(|i: int| 0 <= i < events@.len() && p(events@[i])));
}

/// What `evaluate` says of a trace, in terms of its events alone: the entries and the verdict are
/// fixed by the places at which a `connect` stands, those at which an `execve` stands, and those at
/// which an `execve` stands whose target is unknown or begins with no prefix of the allowlist.
pub proof fn law_evaluation_reports_the_events(
    events: &[TraceEvent],
    constraints: &HardConstraints,
    evaluation: ConstraintsEvaluation,
)
    requires
        call_ensures(evaluate, (events, constraints), evaluation),
    ensures
        ({
            let entries = crate::json::object_view(evaluation.map);
            let connects = Set::new(
                |i: int| 0 <= i < events@.len() && events@[i].kind@ == "connect"@,
            );
            let execves = Set::new(|i: int| 0 <= i < events@.len() && events@[i].kind@ == "execve"@);
            let outside = Set::new(
                |i: int|
                    0 <= i < events@.len() && events@[i].kind@ == "execve"@ && (
                    events@[i].file matches Some(file) ==> forall|k: int|
                        0 <= k < SAFE_RUNTIME_PREFIXES@.len() ==> !(
                        #[trigger] SAFE_RUNTIME_PREFIXES@[k])@.is_prefix_of(file@)),
            );
            &&& connects.finite() && execves.finite() && outside.finite()
            &&& forall|name: Seq<char>| #[trigger]
                entries.contains_key(name) <==> {
                    ||| name == "deny_network"@ && constraints.deny_network
                    ||| name == "deny_unsafe_runtime"@ && constraints.deny_unsafe_runtime
                    ||| name == "max_subprocess_depth"@ && constraints.max_subprocess_depth is Some
                }
            &&& constraints.deny_network ==> entries["deny_network"@] == Json::Object(
                map![
                    "claimed"@ => Json::Bool(true),
                    "connect_events"@ => Json::Integer(connects.len() as int),
                    "violated"@ => Json::Bool(connects.len() > 0),
                ],
            )
            &&& constraints.deny_unsafe_runtime ==> entries["deny_unsafe_runtime"@] == Json::Object(
                map![
                    "claimed"@ => Json::Bool(true),
                    "unsafe_execve_events"@ => Json::Integer(outside.len() as int),
                    "violated"@ => Json::Bool(outside.len() > 0),
                ],
            )
            &&& constraints.max_subprocess_depth matches Some(limit)
                ==> entries["max_subprocess_depth"@] == Json::Object(
                map![
                    "claimed"@ => Json::Integer(limit as int),
                    "observed_depth"@ => Json::Integer(execves.len() as int),
                    "violated"@ => Json::Bool(execves.len() > limit),
                ],
            )
            &&& evaluation.verdict@ == if {
                ||| constraints.deny_network && connects.len() > 0
                ||| constraints.deny_unsafe_runtime && outside.len() > 0
                ||| constraints.max_subprocess_depth is Some && execves.len()
                    > constraints.max_subprocess_depth->0
            } {
                "block"@
            } else {
                "pass"@
            }
        }),
{
    lemma_names_differ();
    let connect = crate::event::has_kind("connect"@);
    let execve = crate::event::has_kind("execve"@);
    let unsafe_one = |event: TraceEvent| crate::constraints::unsafe_execve(event);
    lemma_filter_counts_places(events@, connect);
    lemma_filter_counts_places(events@, execve);
    lemma_filter_counts_places(events@, unsafe_one);
    let connects = Set::new(|i: int| 0 <= i < events@.len() && events@[i].kind@ == "connect"@);
    assert(connects =~= Set::new(|i: int| 0 <= i < events@.len() && connect(events@[i])));
    let execves = Set::new(|i: int| 0 <= i < events@.len() && events@[i].kind@ == "execve"@);
    assert(execves =~= Set::new(|i: int| 0 <= i < events@.len() && execve(events@[i])));
    let outside = Set::new(
        |i: int|
            0 <= i < events@.len() && events@[i].kind@ == "execve"@ && (
            events@[i].file matches Some(file) ==> forall|k: int|
                0 <= k < SAFE_RUNTIME_PREFIXES@.len() ==> !(
                #[trigger] SAFE_RUNTIME_PREFIXES@[k])@.is_prefix_of(file@)),
    );
    assert(outside =~= Set::new(|i: int| 0 <= i < events@.len() && unsafe_one(events@[i])));
}

/// Under `deny_network`, the entry says `violated` exactly where some event is a `connect`; where
/// nothing else is claimed, so does the verdict.
pub proof fn law_network_is_violated_exactly_by_a_connect(
    events: &[TraceEvent],
    constraints: &HardConstraints,
    evaluation: ConstraintsEvaluation,
)
    requires
        call_ensures(evaluate, (events, constraints), evaluation),
        constraints.deny_network,
    ensures
        ({
            let connected = exists|i: int|
                0 <= i < events@.len() && (#[trigger] events@[i]).kind@ == "connect"@;
            let entry = crate::json::object_view(evaluation.map)["deny_network"@];
            &&& entry matches Json::Object(members) && members["violated"@] == Json::Bool(connected)
            &&& connected ==> evaluation.verdict@ == "block"@
            &&& !connected && !constraints.deny_unsafe_runtime
                && constraints.max_subprocess_depth is None ==> evaluation.verdict@ == "pass"@
        }),
{
    lemma_names_differ();
    law_evaluation_reports_the_events(events, constraints, evaluation);
    let connects = Set::new(|i: int| 0 <= i < events@.len() && events@[i].kind@ == "connect"@);
    if exists|i: int| 0 <= i < events@.len() && (#[trigger] events@[i]).kind@ == "connect"@ {
        let i = choose|i: int|
            0 <= i < events@.len() && (#[trigger] events@[i]).kind@ == "connect"@;
        assert(connects.contains(i));
        assert(connects.len() > 0);
    } else {
        assert(connects =~= Set::empty());
    }
}

/// Under `deny_unsafe_runtime`, the entry says `violated` exactly where some event is an `execve`
/// whose target is unknown or begins with no prefix of the allowlist; where nothing else is
/// claimed, so does the verdict.
pub proof fn law_runtime_is_violated_exactly_by_an_unlisted_target(
    events: &[TraceEvent],
    constraints: &HardConstraints,
    evaluation: ConstraintsEvaluation,
)
    requires
        call_ensures(evaluate, (events, constraints), evaluation),
        constraints.deny_unsafe_runtime,
    ensures
        ({
            let unlisted = exists|i: int|
                0 <= i < events@.len() && (#[trigger] events@[i]).kind@ == "execve"@ && (
                events@[i].file matches Some(file) ==> forall|k: int|
                    0 <= k < SAFE_RUNTIME_PREFIXES@.len() ==> !(
                    #[trigger] SAFE_RUNTIME_PREFIXES@[k])@.is_prefix_of(file@));
            let entry = crate::json::object_view(evaluation.map)["deny_unsafe_runtime"@];
            &&& entry matches Json::Object(members) && members["violated"@] == Json::Bool(unlisted)
            &&& unlisted ==> evaluation.verdict@ == "block"@
            &&& !unlisted && !constraints.deny_network
                && constraints.max_subprocess_depth is None ==> evaluation.verdict@ == "pass"@
        }),
{
    lemma_names_differ();
    law_evaluation_reports_the_events(events, constraints, evaluation);
    let outside = Set::new(
        |i: int|
            0 <= i < events@.len() && events@[i].kind@ == "execve"@ && (
            events@[i].file matches Some(file) ==> forall|k: int|
                0 <= k < SAFE_RUNTIME_PREFIXES@.len() ==> !(
                #[trigger] SAFE_RUNTIME_PREFIXES@[k])@.is_prefix_of(file@)),
    );
    if exists|i: int| #[trigger] outside.contains(i) {
        let i = choose|i: int| #[trigger] outside.contains(i);
        assert(events@[i].kind@ == "execve"@);
        assert(outside.len() > 0);
    } else {
        assert(outside =~= Set::empty());
        assert forall|i: int| 0 <= i < events@.len() implies !(((#[trigger] events@[i]).kind@
            == "execve"@) && (events@[i].file matches Some(file) ==> forall|k: int|
            0 <= k < SAFE_RUNTIME_PREFIXES@.len() ==> !(
            #[trigger] SAFE_RUNTIME_PREFIXES@[k])@.is_prefix_of(file@))) by {
            assert(!outside.contains(i));
        }
    }
}

/// Under a limit on subprocess depth, whatever it is, the entry says `violated` exactly where the
/// trace holds more `execve` events than the limit; where nothing else is claimed, so does the
/// verdict.
pub proof fn law_limit_is_violated_exactly_beyond_it(
    events: &[TraceEvent],
    constraints: &HardConstraints,
    limit: u32,
    evaluation: ConstraintsEvaluation,
)
    requires
        call_ensures(evaluate, (events, constraints), evaluation),
        constraints.max_subprocess_depth == Some(limit),
    ensures
        ({
            let execves = Set::new(|i: int| 0 <= i < events@.len() && events@[i].kind@ == "execve"@);
            let entry = crate::json::object_view(evaluation.map)["max_subprocess_depth"@];
            &&& entry matches Json::Object(members) && members["violated"@] == Json::Bool(
                execves.len() > limit,
            )
            &&& execves.len() > limit ==> evaluation.verdict@ == "block"@
            &&& execves.len() <= limit && !constraints.deny_network
                && !constraints.deny_unsafe_runtime ==> evaluation.verdict@ == "pass"@
        }),
{
    lemma_names_differ();
    law_evaluation_reports_the_events(events, constraints, evaluation);
}

/// Whether `picked` is made of what `all` holds at the places that `chosen` holds of, and at no
/// others, in the order of `all`.
pub open spec fn picks<A>(all: Seq<A>, chosen: spec_fn(int) -> bool, picked: Seq<A>) -> bool {
    exists|places: Seq<int>| #[trigger] picks_at(all, chosen, picked, places)
}

/// Whether `picked` is made of what `all` holds at `places`, which are those that `chosen` holds
/// of, in ascending order.
pub open spec fn picks_at<A>(
    all: Seq<A>,
    chosen: spec_fn(int) -> bool,
    picked: Seq<A>,
    places: Seq<int>,
) -> bool {
    &&& places.len() == picked.len()
    &&& forall|j: int, k: int| 0 <= j < k < places.len() ==> places[j] < places[k]
    &&& forall|k: int|
        0 <= k < places.len() ==> 0 <= #[trigger] places[k] < all.len() && chosen(places[k])
            && picked[k] == all[places[k]]
    &&& forall|i: int| 0 <= i < all.len() && #[trigger] chosen(i) ==> places.contains(i)
}

pub(crate) proof fn lemma_filter_picks<A>(s: Seq<A>, p: spec_fn(A) -> bool) -> (places: Seq<int>)
    ensures
        picks_at(s, |i: int| p(s[i]), s.filter(p), places),
    decreases s.len(),
{
    reveal(Seq::filter);
    let chosen = |i: int| p(s[i]);
    if s.len() == 0 {
        Seq::empty()
    } else {
        let n = s.len() - 1;
        let init = s.drop_last();
        let before = lemma_filter_picks(init, p);
        let chosen_before = |i: int| p(init[i]);
        let places = if p(s.last()) {
            before.push(n)
        } else {
            before
        };
        assert forall|i: int| 0 <= i < s.len() && #[trigger] chosen(i) implies places.contains(
            i,
        ) by {
            if i < n {
                assert(chosen_before(i));
                let k = before.index_of(i);
                assert(places[k] == i);
            } else {
                assert(places[places.len() - 1] == n);
            }
        }
        assert forall|k: int| 0 <= k < places.len() implies 0 <= #[trigger] places[k] < s.len()
            && chosen(places[k]) && s.filter(p)[k] == s[places[k]] by {
            if k < before.len() {
                assert(places[k] == before[k]);
                assert(chosen_before(before[k]));
            }
        }
        places
    }
}

/// Whether the type of `event` stands somewhere in `types`.
pub open spec fn is_listed(event: TraceEvent, types: Seq<&str>) -> bool {
    exists|j: int| 0 <= j < types.len() && event.kind@ == (#[trigger] types[j])@
}

/// `filter_events` keeps the events whose type is one of the allowed types, whichever of them it
/// is, and no others, as they are and in order.
pub proof fn law_filter_events_goes_by_type(
    events: Vec<TraceEvent>,
    allowed_types: &[&str],
    kept: Vec<TraceEvent>,
)
    requires
        call_ensures(filter_events, (events, allowed_types), kept),
    ensures
        picks(
            events@,
            |i: int|
                exists|j: int|
                    0 <= j < allowed_types@.len() && (#[trigger] allowed_types@[j])@
                        == events@[i].kind@,
            kept@,
        ),
        forall|k: int| 0 <= k < kept@.len() ==> is_listed(#[trigger] kept@[k], allowed_types@),
        forall|i: int, j: int|
            0 <= i < events@.len() && 0 <= j < allowed_types@.len() && (
            #[trigger] allowed_types@[j])@ == (#[trigger] events@[i]).kind@ ==> kept@.contains(
                events@[i],
            ),
{
    let p = crate::event::has_allowed_kind(allowed_types@);
    let places = lemma_filter_picks(events@, p);
    let chosen = |i: int|
        exists|j: int|
            0 <= j < allowed_types@.len() && (#[trigger] allowed_types@[j])@ == events@[i].kind@;
    let chosen_by_filter = |i: int| p(events@[i]);
    assert forall|k: int| 0 <= k < places.len() implies 0 <= #[trigger] places[k] < events@.len()
        && chosen(places[k]) && kept@[k] == events@[places[k]] by {
        assert(chosen_by_filter(places[k]));
    }
    assert forall|i: int| 0 <= i < events@.len() && #[trigger] chosen(i) implies places.contains(
        i,
    ) by {
        assert(chosen_by_filter(i));
    }
    assert(picks_at(events@, chosen, kept@, places));
    assert forall|k: int| 0 <= k < kept@.len() implies is_listed(
        #[trigger] kept@[k],
        allowed_types@,
    ) by {
        assert(chosen(places[k]));
    }
    assert forall|i: int, j: int|
        0 <= i < events@.len() && 0 <= j < allowed_types@.len() && (#[trigger] allowed_types@[j])@
            == (#[trigger] events@[i]).kind@ implies kept@.contains(events@[i]) by {
        assert(chosen(i));
        let k = places.index_of(i);
        assert(kept@[k] == events@[i]);
    }
}

/// What `from_intent_card` reads, in terms of the members of the card alone: a ban is claimed
/// exactly where the card's `hard_constraints` object holds `true` under its name, and a limit
/// exactly where it holds that integer under its name.
pub proof fn law_card_is_read_as_it_stands(
    intent_card: &serde_json::Value,
    constraints: HardConstraints,
)
    requires
        call_ensures(HardConstraints::from_intent_card, (intent_card,), constraints),
    ensures
        constraints.deny_network <==> card_holds(
            crate::json::json_view(*intent_card),
            "deny_network"@,
            Json::Bool(true),
        ),
        constraints.deny_unsafe_runtime <==> card_holds(
            crate::json::json_view(*intent_card),
            "deny_unsafe_runtime"@,
            Json::Bool(true),
        ),
        forall|limit: u32|
            constraints.max_subprocess_depth == Some(limit) <==> #[trigger] card_holds(
                crate::json::json_view(*intent_card),
                "max_subprocess_depth"@,
                Json::Integer(limit as int),
            ),
{
    let card = crate::json::json_view(*intent_card);
    assert forall|limit: u32|
        constraints.max_subprocess_depth == Some(limit) <==> #[trigger] card_holds(
            card,
            "max_subprocess_depth"@,
            Json::Integer(limit as int),
        ) by {}
}

/// Whether `card` is an object with an object under `hard_constraints` that holds `value` under
/// `name`.
pub open spec fn card_holds(card: Json, name: Seq<char>, value: Json) -> bool {
    &&& card matches Json::Object(members)
    &&& members.contains_key("hard_constraints"@)
    &&& members["hard_constraints"@] matches Json::Object(block)
    &&& block.contains_key(name)
    &&& block[name] == value
}

/// What `from_fields` claims: a ban exactly where the field is `true`, and a limit exactly where
/// the field is that number.
pub proof fn law_fields_are_claimed_as_they_stand(
    deny_network: Option<bool>,
    deny_unsafe_runtime: Option<bool>,
    max_subprocess_depth: Option<u64>,
    constraints: HardConstraints,
)
    requires
        call_ensures(
            HardConstraints::from_fields,
            (deny_network, deny_unsafe_runtime, max_subprocess_depth),
            constraints,
        ),
    ensures
        constraints.deny_network <==> deny_network == Some(true),
        constraints.deny_unsafe_runtime <==> deny_unsafe_runtime == Some(true),
        constraints.max_subprocess_depth matches Some(limit) ==> max_subprocess_depth == Some(
            limit as u64,
        ),
        constraints.max_subprocess_depth is None <==> max_subprocess_depth is None
            || max_subprocess_depth->0 > u32::MAX,
{
}

/// A receipt that is built from the evaluation of a trace holds that evaluation and all else that
/// it is given, under the one schema, and no reason for having been skipped.
pub proof fn law_receipt_holds_the_evaluation(
    events: &[TraceEvent],
    constraints: &HardConstraints,
    evaluation: ConstraintsEvaluation,
    head_sha: String,
    captured_at: String,
    tracer: TracerInfo,
    notes: Vec<String>,
    receipt: SessionTraceReceipt,
)
    requires
        call_ensures(evaluate, (events, constraints), evaluation),
        call_ensures(build_receipt, (head_sha, captured_at, tracer, evaluation, notes), receipt),
    ensures
        receipt.schema@ == "autobuilder.session_trace_receipt.v1"@,
        receipt.head_sha == head_sha,
        receipt.captured_at == captured_at,
        receipt.tracer == tracer,
        receipt.constraints_evaluated == evaluation.map,
        receipt.verdict == evaluation.verdict,
        receipt.verdict@ == "block"@ || receipt.verdict@ == "pass"@,
        receipt.skip_reason is None,
        receipt.notes == notes,
{
    assert(RECEIPT_SCHEMA@ == "autobuilder.session_trace_receipt.v1"@);
}

/// A skipped receipt says that it was skipped and why, and neither a log nor a constraint stands
/// in it.
pub proof fn law_skipped_receipt_reports_nothing_else(
    head_sha: String,
    captured_at: String,
    reason: &str,
    receipt: SessionTraceReceipt,
)
    requires
        call_ensures(skipped_receipt, (head_sha, captured_at, reason), receipt),
    ensures
        receipt.schema@ == "autobuilder.session_trace_receipt.v1"@,
        receipt.head_sha == head_sha,
        receipt.captured_at == captured_at,
        receipt.verdict@ == "skipped"@,
        receipt.skip_reason matches Some(given) && given@ == reason@,
        receipt.tracer.tool@ == "ctrace"@,
        receipt.tracer.version is None,
        receipt.tracer.root_pid is None,
        receipt.tracer.log_sha256@.len() == 0,
        receipt.tracer.log_path@.len() == 0,
        receipt.tracer.event_count == 0,
        receipt.notes@.len() == 0,
        forall|name: Seq<char>|
            !(#[trigger] crate::json::object_view(receipt.constraints_evaluated).contains_key(
                name,
            )),
{
    assert(RECEIPT_SCHEMA@ == "autobuilder.session_trace_receipt.v1"@);
}

/// The constraints that are claimed by default are none.
pub proof fn law_default_claims_nothing(constraints: HardConstraints)
    requires
        call_ensures(<HardConstraints as Default>::default, (), constraints),
    ensures
        !constraints.deny_network,
        !constraints.deny_unsafe_runtime,
        constraints.max_subprocess_depth is None,
{
}

/// The clone of an event, of constraints or of a tracer's provenance is equal to it.
pub proof fn law_clones_are_equal(
    event: &TraceEvent,
    event_clone: TraceEvent,
    constraints: &HardConstraints,
    constraints_clone: HardConstraints,
    tracer: &TracerInfo,
    tracer_clone: TracerInfo,
)
    requires
        call_ensures(<TraceEvent as Clone>::clone, (event,), event_clone),
        call_ensures(<HardConstraints as Clone>::clone, (constraints,), constraints_clone),
        call_ensures(<TracerInfo as Clone>::clone, (tracer,), tracer_clone),
    ensures
        event_clone == *event,
        constraints_clone == *constraints,
        tracer_clone == *tracer,
{
}

/// The clone of an evaluation or of a receipt says the same as it, in every part.
pub proof fn law_clones_say_the_same(
    evaluation: &ConstraintsEvaluation,
    evaluation_clone: ConstraintsEvaluation,
    receipt: &SessionTraceReceipt,
    receipt_clone: SessionTraceReceipt,
)
    requires
        call_ensures(<ConstraintsEvaluation as Clone>::clone, (evaluation,), evaluation_clone),
        call_ensures(<SessionTraceReceipt as Clone>::clone, (receipt,), receipt_clone),
    ensures
        crate::json::object_view(evaluation_clone.map) == crate::json::object_view(evaluation.map),
        evaluation_clone.verdict == evaluation.verdict,
        receipt_clone.schema == receipt.schema,
        receipt_clone.head_sha == receipt.head_sha,
        receipt_clone.captured_at == receipt.captured_at,
        receipt_clone.tracer == receipt.tracer,
        crate::json::object_view(receipt_clone.constraints_evaluated) == crate::json::object_view(
            receipt.constraints_evaluated,
        ),
        receipt_clone.verdict == receipt.verdict,
        receipt_clone.skip_reason == receipt.skip_reason,
        receipt_clone.notes@ == receipt.notes@,
{
}

} // verus!
