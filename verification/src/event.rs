//! The events of a trace.

use crate::text::{event_lines, same_text};
use vstd::prelude::*;

verus! {

/// A single event of a ctrace log.
#[derive(Debug)]
pub struct TraceEvent {
    /// Monotonic millisecond timestamp.
    pub ts: u64,
    /// The event's `type`: `"begin"`, `"execve"`, `"openat"`, `"unlinkat"` or `"connect"`.
    pub kind: String,
    /// PID of the process that emitted the event.
    pub pid: Option<u32>,
    /// Process `comm` (truncated to 16 bytes by the kernel).
    pub comm: Option<String>,
    /// Target file for `execve`.
    pub file: Option<String>,
    /// Target path for `openat` and `unlinkat`.
    pub path: Option<String>,
    /// Raw `openat` flags.
    pub flags: Option<i32>,
}

impl Clone for TraceEvent {
    fn clone(&self) -> (res: Self)
        ensures
            res == *self,
    {
        TraceEvent {
            ts: self.ts,
            kind: self.kind.clone(),
            pid: self.pid,
            comm: self.comm.clone(),
            file: self.file.clone(),
            path: self.path.clone(),
            flags: self.flags,
        }
    }
}

/// Holds of the events of the type `kind`.
pub open spec fn has_kind(kind: Seq<char>) -> spec_fn(TraceEvent) -> bool {
    |event: TraceEvent| event.kind@ == kind
}

/// The events among `events` of the type `kind`, in order.
pub open spec fn of_kind(events: Seq<TraceEvent>, kind: Seq<char>) -> Seq<TraceEvent> {
    events.filter(has_kind(kind))
}

/// Whether `kind` is one of `allowed_types`.
pub open spec fn is_allowed(kind: Seq<char>, allowed_types: Seq<&str>) -> bool {
    exists|i: int| 0 <= i < allowed_types.len() && (#[trigger] allowed_types[i])@ == kind
}

/// Holds of the events whose type is one of `allowed_types`.
pub open spec fn has_allowed_kind(allowed_types: Seq<&str>) -> spec_fn(TraceEvent) -> bool {
    |event: TraceEvent| is_allowed(event.kind@, allowed_types)
}

/// The events among `events` whose type is one of `allowed_types`, in order.
pub open spec fn allowed_events(events: Seq<TraceEvent>, allowed_types: Seq<&str>) -> Seq<
    TraceEvent,
> {
    events.filter(has_allowed_kind(allowed_types))
}

/// The events that came out of decoding, in order, without the attempts that gave none.
pub open spec fn decoded_events(attempts: Seq<Option<TraceEvent>>) -> Seq<TraceEvent> {
    attempts.filter_map(|attempt: Option<TraceEvent>| attempt)
}

/// Whether `attempt` is what `decode` gives for `line`.
pub open spec fn decodes_line<F: Fn(&str) -> Option<TraceEvent>>(
    decode: F,
    line: Seq<char>,
    attempt: Option<TraceEvent>,
) -> bool {
    exists|s: &str| (#[trigger] s@) == line && call_ensures(decode, (s,), attempt)
}

/// Whether `attempts` is what `decode` gives for each of `lines`, one by one.
pub open spec fn decodes<F: Fn(&str) -> Option<TraceEvent>>(
    decode: F,
    lines: Seq<Seq<char>>,
    attempts: Seq<Option<TraceEvent>>,
) -> bool {
    &&& attempts.len() == lines.len()
    &&& forall|i: int|
        #![trigger lines[i]]
        #![trigger attempts[i]]
        0 <= i < lines.len() ==> decodes_line(decode, lines[i], attempts[i])
}

/// Whether `events` are what a log holds, where `decode` reads the event that a line holds: what
/// it gives for the event lines of the log, in order, without the lines that it makes nothing of.
pub open spec fn parses_to<F: Fn(&str) -> Option<TraceEvent>>(
    decode: F,
    log: Seq<char>,
    events: Seq<TraceEvent>,
) -> bool {
    exists|attempts: Seq<Option<TraceEvent>>|
        decodes(decode, crate::text::event_lines_of(log), attempts) && events
            == #[trigger] decoded_events(attempts)
}

/// The number of events of the type `kind`.
pub fn count_kind(events: &[TraceEvent], kind: &str) -> (count: u64)
    ensures
        count == of_kind(events@, kind@).len(),
{
    let mut count: u64 = 0;
    let mut i: usize = 0;
    assert(of_kind(events@.take(0), kind@).len() == 0) by {
        reveal(Seq::filter);
    }
    while i < events.len()
        invariant
            i <= events.len(),
            count <= i,
            count == of_kind(events@.take(i as int), kind@).len(),
        decreases events.len() - i,
    {
        proof {
            reveal(Seq::filter);
            assert(events@.take(i + 1).drop_last() =~= events@.take(i as int));
        }
        if same_text(&events[i].kind, kind) {
            count = count + 1;
        }
        i = i + 1;
    }
    assert(events@.take(i as int) =~= events@);
    count
}

/// Whether `kind` is one of `allowed_types`.
fn allows(allowed_types: &[&str], kind: &str) -> (res: bool)
    ensures
        res == is_allowed(kind@, allowed_types@),
{
    let mut i: usize = 0;
    while i < allowed_types.len()
        invariant
            i <= allowed_types.len(),
            forall|j: int| 0 <= j < i ==> (#[trigger] allowed_types@[j])@ != kind@,
        decreases allowed_types.len() - i,
    {
        if same_text(allowed_types[i], kind) {
            assert(allowed_types@[i as int]@ == kind@);
            return true;
        }
        i = i + 1;
    }
    false
}

/// Restricts `events` to those whose type is in `allowed_types`.
#[must_use]
pub fn filter_events(events: Vec<TraceEvent>, allowed_types: &[&str]) -> (kept: Vec<TraceEvent>)
    ensures
        kept@ == allowed_events(events@, allowed_types@),
{
    let ghost all = events@;
    let mut kept: Vec<TraceEvent> = Vec::new();
    assert(allowed_events(all.take(0), allowed_types@) =~= Seq::empty()) by {
        reveal(Seq::filter);
    }
    for event in it: events
        invariant
            it.seq() == all,
            kept@ == allowed_events(all.take(it.index() as int), allowed_types@),
    {
        proof {
            reveal(Seq::filter);
            assert(all.take(it.index() + 1).drop_last() =~= all.take(it.index() as int));
        }
        if allows(allowed_types, &event.kind) {
            kept.push(event);
        }
    }
    assert(all.take(all.len() as int) =~= all);
    kept
}

/// The events that came out of decoding, in order, without the attempts that gave none.
pub fn keep_decoded(attempts: Vec<Option<TraceEvent>>) -> (events: Vec<TraceEvent>)
    ensures
        events@ == decoded_events(attempts@),
{
    let ghost all = attempts@;
    let mut events: Vec<TraceEvent> = Vec::new();
    for attempt in it: attempts
        invariant
            it.seq() == all,
            events@ == decoded_events(all.take(it.index() as int)),
    {
        assert(all.take(it.index() + 1).drop_last() =~= all.take(it.index() as int));
        if let Some(event) = attempt {
            events.push(event);
        }
    }
    assert(all.take(all.len() as int) =~= all);
    events
}

/// Reads the events of a raw NDJSON log, with `decode` to read the event that a line holds.
///
/// Blank lines and lines that `decode` makes nothing of are skipped. (Tracer logs can end in a
/// torn line if the kernel was killed mid-write; best effort is better here than hard failure.)
#[must_use]
pub fn parse_ndjson<F: Fn(&str) -> Option<TraceEvent>>(input: &str, decode: F) -> (events: Vec<
    TraceEvent,
>)
    requires
        forall|line: &str|
            crate::text::event_lines_of(input@).contains(line@) ==> call_requires(decode, (line,)),
    ensures
        parses_to(decode, input@, events@),
{
    let lines = event_lines(input);
    let ghost expected = crate::text::event_lines_of(input@);
    let mut attempts: Vec<Option<TraceEvent>> = Vec::new();
    let mut i: usize = 0;
    while i < lines.len()
        invariant
            i <= lines.len(),
            crate::text::texts(lines@) == expected,
            forall|line: &str| expected.contains(line@) ==> call_requires(decode, (line,)),
            decodes(decode, expected.take(i as int), attempts@),
        decreases lines.len() - i,
    {
        let line: &str = lines[i].as_str();
        assert(line@ == expected[i as int]);
        let attempt = decode(line);
        attempts.push(attempt);
        proof {
            assert(decodes_line(decode, expected[i as int], attempt));
            let seen = expected.take(i + 1);
            assert forall|j: int| 0 <= j < seen.len() implies decodes_line(
                decode,
                #[trigger] seen[j],
                attempts@[j],
            ) by {
                if j < i {
                    assert(seen[j] == expected.take(i as int)[j]);
                }
            }
        }
        i = i + 1;
    }
    assert(expected.take(i as int) =~= expected);
    keep_decoded(attempts)
}

} // verus!
