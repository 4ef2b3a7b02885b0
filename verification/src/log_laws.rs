//! What holds of logs: their lines, their events, their count and their digest.
//!
//! Where a law requires `call_ensures(f, arguments, result)`, it speaks of every result that `f` may
//! give for those arguments.

use crate::digest::{hex_string, nibble_to_hex, sha256_hex, MAX_MESSAGE_LEN};
use crate::event::{keep_decoded, parse_ndjson, TraceEvent};
use crate::log::LogScan;
use crate::receipt::TracerInfo;
use crate::text::{event_lines, is_blank, is_whitespace};
use vstd::prelude::*;

verus! {

/// Setting two texts one after the other, with a line feed between them, sets their lines one
/// after the other.
pub proof fn law_lines_of_joined_texts(a: Seq<char>, b: Seq<char>)
    ensures
        crate::text::split_lines(a.push('\n') + b) == crate::text::split_lines(a)
            + crate::text::split_lines(b),
        crate::text::split_lines(b).len() > 0,
    decreases b.len(),
{
    let joined = a.push('\n') + b;
    if b.len() == 0 {
        assert(joined.drop_last() =~= a);
        assert(crate::text::split_lines(joined) =~= crate::text::split_lines(a)
            + crate::text::split_lines(b));
    } else {
        assert(joined.drop_last() =~= a.push('\n') + b.drop_last());
        law_lines_of_joined_texts(a, b.drop_last());
        assert(crate::text::split_lines(joined) =~= crate::text::split_lines(a)
            + crate::text::split_lines(b));
    }
}

proof fn lemma_trimmed_lines_of_joined(a: Seq<Seq<char>>, b: Seq<Seq<char>>)
    ensures
        crate::text::trimmed_lines(a + b) == crate::text::trimmed_lines(a)
            + crate::text::trimmed_lines(b),
{
    let trim = |line: Seq<char>| crate::text::trim(line);
    assert((a + b).map_values(trim) =~= a.map_values(trim) + b.map_values(trim));
    Seq::filter_distributes_over_add(
        a.map_values(trim),
        b.map_values(trim),
        |line: Seq<char>| line.len() > 0,
    );
}

/// The event lines of two logs, one after the other, are those of the first and then those of the
/// second: what is appended after a line feed changes nothing before it.
pub proof fn law_event_lines_of_joined_logs(a: Seq<char>, b: Seq<char>)
    ensures
        crate::text::event_lines_of(a.push('\n') + b) == crate::text::event_lines_of(a)
            + crate::text::event_lines_of(b),
{
    law_lines_of_joined_texts(a, b);
    lemma_trimmed_lines_of_joined(crate::text::split_lines(a), crate::text::split_lines(b));
}

proof fn lemma_no_line_feed_in_lines(text: Seq<char>)
    ensures
        crate::text::split_lines(text).len() > 0,
        forall|i: int|
            0 <= i < crate::text::split_lines(text).len() ==> !(#[trigger] crate::text::split_lines(
                text,
            )[i]).contains('\n'),
    decreases text.len(),
{
    let lines = crate::text::split_lines(text);
    if text.len() == 0 {
    } else {
        let before = crate::text::split_lines(text.drop_last());
        lemma_no_line_feed_in_lines(text.drop_last());
        assert forall|i: int| 0 <= i < lines.len() implies !(#[trigger] lines[i]).contains(
            '\n',
        ) by {
            if i < before.len() {
                assert(!before[i].contains('\n'));
                if i == before.len() - 1 && text.last() != '\n' && lines[i].contains('\n') {
                    let j = lines[i].index_of('\n');
                    assert(before[i][j] == '\n');
                }
            }
        }
    }
}

proof fn lemma_trim_start_is_suffix(text: Seq<char>)
    ensures
        crate::text::trim_start(text).len() <= text.len(),
        crate::text::trim_start(text) == text.skip(
            text.len() - crate::text::trim_start(text).len(),
        ),
    decreases text.len(),
{
    let trimmed = crate::text::trim_start(text);
    if text.len() > 0 && crate::text::white_space(text.first()) {
        lemma_trim_start_is_suffix(text.drop_first());
    }
    assert(trimmed =~= text.skip(text.len() - trimmed.len()));
}

proof fn lemma_trim_end_is_prefix(text: Seq<char>)
    ensures
        crate::text::trim_end(text).len() <= text.len(),
        crate::text::trim_end(text) == text.take(crate::text::trim_end(text).len() as int),
        crate::text::trim_end(text).len() > 0 ==> !crate::text::white_space(
            crate::text::trim_end(text).last(),
        ),
    decreases text.len(),
{
    let trimmed = crate::text::trim_end(text);
    if text.len() > 0 && crate::text::white_space(text.last()) {
        lemma_trim_end_is_prefix(text.drop_last());
    }
    assert(trimmed =~= text.take(trimmed.len() as int));
}

/// Whether `line` can stand in a log as it is: it is not empty, neither begins nor ends with white
/// space, and holds no line feed.
pub open spec fn is_event_line(line: Seq<char>) -> bool {
    &&& line.len() > 0
    &&& !crate::text::white_space(line.first())
    &&& !crate::text::white_space(line.last())
    &&& !line.contains('\n')
}

/// An event line is not empty, neither begins nor ends with white space, and holds no line feed.
pub proof fn law_event_lines_are_trimmed(log: Seq<char>, i: int)
    requires
        0 <= i < crate::text::event_lines_of(log).len(),
    ensures
        is_event_line(crate::text::event_lines_of(log)[i]),
{
    let lines = crate::text::split_lines(log);
    let trimmed = lines.map_values(|line: Seq<char>| crate::text::trim(line));
    let p = |line: Seq<char>| line.len() > 0;
    assert(crate::text::event_lines_of(log) == trimmed.filter(p));
    let line = trimmed.filter(p)[i];
    trimmed.lemma_filter_pred(p, i);
    assert(trimmed.filter(p).contains(line));
    trimmed.lemma_filter_contains_rev(p, line);
    let j = trimmed.index_of(line);
    assert(line == crate::text::trim(lines[j]));
    let start = crate::text::trim_start(lines[j]);
    lemma_trim_start_is_suffix(lines[j]);
    crate::text::lemma_trim_start_blank(lines[j]);
    lemma_trim_end_is_prefix(start);
    assert(line.first() == start.first());
    lemma_no_line_feed_in_lines(log);
    if line.contains('\n') {
        let k = line.index_of('\n');
        assert(start[k] == '\n');
        assert(lines[j][lines[j].len() - start.len() + k] == '\n');
    }
}

proof fn lemma_trim_start_push(text: Seq<char>, c: char)
    requires
        crate::text::trim_start(text).len() > 0,
    ensures
        crate::text::trim_start(text.push(c)) == crate::text::trim_start(text).push(c),
    decreases text.len(),
{
    if crate::text::white_space(text.first()) {
        assert(text.push(c).drop_first() =~= text.drop_first().push(c));
        lemma_trim_start_push(text.drop_first(), c);
    }
}

/// White space at the end of a line, such as the carriage return of a line that ends in both,
/// changes neither whether the line is blank nor what is left of it when it is trimmed.
pub proof fn law_trailing_white_space_is_ignored(line: Seq<char>, c: char)
    requires
        crate::text::white_space(c),
    ensures
        crate::text::blank(line.push(c)) == crate::text::blank(line),
        crate::text::trim(line.push(c)) == crate::text::trim(line),
{
    if crate::text::blank(line) {
        crate::text::lemma_blank_is_trimmed_away(line);
        crate::text::lemma_blank_is_trimmed_away(line.push(c));
        assert(crate::text::trim(line.push(c)) =~= crate::text::trim(line));
    } else {
        let i = choose|i: int|
            0 <= i < line.len() && !crate::text::white_space(#[trigger] line[i]);
        assert(line.push(c)[i] == line[i]);
        crate::text::lemma_blank_is_trimmed_away(line);
        lemma_trim_end_is_prefix(crate::text::trim_start(line));
        lemma_trim_start_push(line, c);
        assert(crate::text::trim_start(line).push(c).drop_last() =~= crate::text::trim_start(line));
    }
}

proof fn lemma_decoded_events_of_joined(
    a: Seq<Option<TraceEvent>>,
    b: Seq<Option<TraceEvent>>,
)
    ensures
        crate::event::decoded_events(a + b) == crate::event::decoded_events(a)
            + crate::event::decoded_events(b),
        crate::event::decoded_events(b).len() <= b.len(),
    decreases b.len(),
{
    if b.len() == 0 {
        assert(a + b =~= a);
        assert(crate::event::decoded_events(b) =~= Seq::empty());
    } else {
        assert((a + b).drop_last() =~= a + b.drop_last());
        lemma_decoded_events_of_joined(a, b.drop_last());
    }
    assert(crate::event::decoded_events(a + b) =~= crate::event::decoded_events(a)
        + crate::event::decoded_events(b));
}

/// A log gives at most one event for each of its event lines.
pub proof fn law_no_more_events_than_event_lines<F: Fn(&str) -> Option<TraceEvent>>(
    decode: F,
    log: Seq<char>,
    events: Seq<TraceEvent>,
)
    requires
        crate::event::parses_to(decode, log, events),
    ensures
        events.len() <= crate::text::event_lines_of(log).len(),
{
    let attempts = choose|attempts: Seq<Option<TraceEvent>>|
        crate::event::decodes(decode, crate::text::event_lines_of(log), attempts) && events
            == #[trigger] crate::event::decoded_events(attempts);
    lemma_decoded_events_of_joined(Seq::empty(), attempts);
}

/// The events of two logs, one after the other, are those of the first and then those of the
/// second.
pub proof fn law_events_of_joined_logs<F: Fn(&str) -> Option<TraceEvent>>(
    decode: F,
    a: Seq<char>,
    events_a: Seq<TraceEvent>,
    b: Seq<char>,
    events_b: Seq<TraceEvent>,
)
    requires
        crate::event::parses_to(decode, a, events_a),
        crate::event::parses_to(decode, b, events_b),
    ensures
        crate::event::parses_to(decode, a.push('\n') + b, events_a + events_b),
{
    let attempts_a = choose|attempts: Seq<Option<TraceEvent>>|
        crate::event::decodes(decode, crate::text::event_lines_of(a), attempts) && events_a
            == #[trigger] crate::event::decoded_events(attempts);
    let attempts_b = choose|attempts: Seq<Option<TraceEvent>>|
        crate::event::decodes(decode, crate::text::event_lines_of(b), attempts) && events_b
            == #[trigger] crate::event::decoded_events(attempts);
    law_event_lines_of_joined_logs(a, b);
    lemma_decoded_events_of_joined(attempts_a, attempts_b);
    assert(crate::event::decodes(
        decode,
        crate::text::event_lines_of(a.push('\n') + b),
        attempts_a + attempts_b,
    ));
}

/// A torn end costs no event: where no line after `log` decodes, the events are those of `log`.
pub proof fn law_torn_end_costs_no_event<F: Fn(&str) -> Option<TraceEvent>>(
    decode: F,
    log: Seq<char>,
    torn: Seq<char>,
    attempts: Seq<Option<TraceEvent>>,
)
    requires
        crate::event::decodes(
            decode,
            crate::text::event_lines_of(log.push('\n') + torn),
            attempts,
        ),
        forall|i: int|
            crate::text::event_lines_of(log).len() <= i < attempts.len()
                ==> #[trigger] attempts[i] is None,
    ensures
        ({
            let kept = attempts.take(crate::text::event_lines_of(log).len() as int);
            &&& crate::event::decodes(decode, crate::text::event_lines_of(log), kept)
            &&& crate::event::decoded_events(attempts) == crate::event::decoded_events(kept)
        }),
{
    let n = crate::text::event_lines_of(log).len() as int;
    law_event_lines_of_joined_logs(log, torn);
    let joined = crate::text::event_lines_of(log.push('\n') + torn);
    let kept = attempts.take(n);
    let rest = attempts.skip(n);
    assert forall|i: int| 0 <= i < n implies crate::event::decodes_line(
        decode,
        #[trigger] crate::text::event_lines_of(log)[i],
        kept[i],
    ) by {
        assert(joined[i] == crate::text::event_lines_of(log)[i]);
    }
    assert(attempts =~= kept + rest);
    lemma_decoded_events_of_joined(kept, rest);
    lemma_nothing_decoded(rest);
    assert(crate::event::decoded_events(kept) + crate::event::decoded_events(rest)
        =~= crate::event::decoded_events(kept));
}

proof fn lemma_nothing_decoded(attempts: Seq<Option<TraceEvent>>)
    requires
        forall|i: int| 0 <= i < attempts.len() ==> #[trigger] attempts[i] is None,
    ensures
        crate::event::decoded_events(attempts).len() == 0,
    decreases attempts.len(),
{
    if attempts.len() > 0 {
        assert(attempts[attempts.len() - 1] is None);
        lemma_nothing_decoded(attempts.drop_last());
    }
}

/// `lines` joined with line feeds.
pub open spec fn join_lines(lines: Seq<Seq<char>>) -> Seq<char>
    decreases lines.len(),
{
    if lines.len() == 0 {
        Seq::empty()
    } else if lines.len() == 1 {
        lines[0]
    } else {
        join_lines(lines.drop_last()).push('\n') + lines.last()
    }
}

proof fn lemma_single_line(text: Seq<char>)
    requires
        !text.contains('\n'),
    ensures
        crate::text::split_lines(text) == seq![text],
    decreases text.len(),
{
    if text.len() > 0 {
        let before = text.drop_last();
        if before.contains('\n') {
            assert(text[before.index_of('\n')] == '\n');
        }
        assert(text[text.len() - 1] != '\n');
        lemma_single_line(before);
        assert(before.push(text.last()) =~= text);
    } else {
        assert(text =~= Seq::empty());
    }
    assert(crate::text::split_lines(text) =~= seq![text]);
}

proof fn lemma_event_lines_of_one(line: Seq<char>)
    requires
        is_event_line(line),
    ensures
        crate::text::event_lines_of(line) == seq![line],
{
    lemma_single_line(line);
    crate::text::lemma_trimmed_lines_push(Seq::empty(), line);
    lemma_no_lines();
    assert(Seq::<Seq<char>>::empty().push(line) =~= seq![line]);
}

proof fn lemma_no_lines()
    ensures
        crate::text::trimmed_lines(Seq::empty()) == Seq::<Seq<char>>::empty(),
{
    reveal(Seq::filter);
    assert(crate::text::trimmed_lines(Seq::empty()) =~= Seq::<Seq<char>>::empty());
}

/// Lines that can stand in a log as they are, joined with line feeds, are the event lines of the
/// log that they make.
pub proof fn law_joined_lines_are_read_back(lines: Seq<Seq<char>>)
    requires
        forall|i: int| 0 <= i < lines.len() ==> is_event_line(#[trigger] lines[i]),
    ensures
        crate::text::event_lines_of(join_lines(lines)) == lines,
    decreases lines.len(),
{
    if lines.len() == 0 {
        lemma_no_lines();
        let none = Seq::<char>::empty();
        lemma_single_line(none);
        crate::text::lemma_trimmed_lines_push(Seq::empty(), none);
        assert(Seq::<Seq<char>>::empty().push(none) =~= seq![none]);
    } else {
        assert(is_event_line(lines[lines.len() - 1]));
        lemma_event_lines_of_one(lines.last());
        if lines.len() > 1 {
            law_joined_lines_are_read_back(lines.drop_last());
            law_event_lines_of_joined_logs(join_lines(lines.drop_last()), lines.last());
        }
    }
    assert(crate::text::event_lines_of(join_lines(lines)) =~= lines);
}

proof fn lemma_all_decoded(events: Seq<TraceEvent>, attempts: Seq<Option<TraceEvent>>)
    requires
        attempts.len() == events.len(),
        forall|i: int| 0 <= i < events.len() ==> #[trigger] attempts[i] == Some(events[i]),
    ensures
        crate::event::decoded_events(attempts) == events,
    decreases events.len(),
{
    if events.len() > 0 {
        assert(attempts[attempts.len() - 1] == Some(events[events.len() - 1]));
        lemma_all_decoded(events.drop_last(), attempts.drop_last());
    }
    assert(crate::event::decoded_events(attempts) =~= events);
}

/// Events that are written one per line are read back, all of them and in order: where line `i`
/// decodes to event `i` and to nothing else, parsing the joined lines gives the events.
pub proof fn law_written_events_are_read_back<F: Fn(&str) -> Option<TraceEvent>>(
    decode: F,
    events: Seq<TraceEvent>,
    lines: Seq<Seq<char>>,
    parsed: Seq<TraceEvent>,
)
    requires
        lines.len() == events.len(),
        forall|i: int| 0 <= i < lines.len() ==> is_event_line(#[trigger] lines[i]),
        forall|i: int, attempt: Option<TraceEvent>|
            0 <= i < lines.len() && #[trigger] crate::event::decodes_line(
                decode,
                lines[i],
                attempt,
            ) ==> attempt == Some(events[i]),
        crate::event::parses_to(decode, join_lines(lines), parsed),
    ensures
        parsed == events,
{
    law_joined_lines_are_read_back(lines);
    let attempts = choose|attempts: Seq<Option<TraceEvent>>|
        crate::event::decodes(decode, lines, attempts) && parsed
            == #[trigger] crate::event::decoded_events(attempts);
    lemma_all_decoded(events, attempts);
}

/// The count after `lines` have been counted, one by one, on top of `count`.
pub open spec fn counted_lines(count: u64, lines: Seq<Seq<char>>) -> u64
    decreases lines.len(),
{
    if lines.len() == 0 {
        count
    } else {
        crate::log::counted(counted_lines(count, lines.drop_last()), lines.last())
    }
}

/// Counting lines one by one gives the number of those that are not blank, as far as a `u64`
/// reaches.
pub proof fn law_count_is_number_of_event_lines(lines: Seq<Seq<char>>)
    ensures
        counted_lines(0, lines) == vstd::math::min(
            crate::text::trimmed_lines(lines).len() as int,
            u64::MAX as int,
        ),
    decreases lines.len(),
{
    if lines.len() == 0 {
        reveal(Seq::filter);
    } else {
        law_count_is_number_of_event_lines(lines.drop_last());
        crate::text::lemma_trimmed_lines_push(lines.drop_last(), lines.last());
        crate::text::lemma_blank_is_trimmed_away(lines.last());
        assert(lines.drop_last().push(lines.last()) =~= lines);
    }
}

/// `line` without the carriage return that it may end in.
pub open spec fn without_carriage_return(line: Seq<char>) -> Seq<char> {
    if line.len() > 0 && line.last() == '\r' {
        line.drop_last()
    } else {
        line
    }
}

/// The lines of `log` as a line reader gives them: a line ends in a line feed, or in a carriage
/// return and a line feed, neither of which is part of it, and the end of the last line is
/// optional.
pub open spec fn reader_lines(log: Seq<char>) -> Seq<Seq<char>> {
    let lines = crate::text::split_lines(log);
    let ended = lines.drop_last().map_values(|line: Seq<char>| without_carriage_return(line));
    if lines.last().len() == 0 {
        ended
    } else {
        ended.push(lines.last())
    }
}

/// Counting the lines of a log as a line reader gives them, one by one, gives the number of its
/// event lines, as far as a `u64` reaches: the lines that are tried when the log is parsed.
pub proof fn law_count_of_log_is_number_of_event_lines(log: Seq<char>)
    ensures
        counted_lines(0, reader_lines(log)) == vstd::math::min(
            crate::text::event_lines_of(log).len() as int,
            u64::MAX as int,
        ),
{
    let lines = crate::text::split_lines(log);
    let init = lines.drop_last();
    let ended = init.map_values(|line: Seq<char>| without_carriage_return(line));
    law_count_is_number_of_event_lines(reader_lines(log));
    lemma_no_line_feed_in_lines(log);
    assert(lines =~= init.push(lines.last()));
    let trim = |line: Seq<char>| crate::text::trim(line);
    assert forall|i: int| 0 <= i < init.len() implies crate::text::trim(#[trigger] ended[i])
        == crate::text::trim(init[i]) by {
        let line = init[i];
        if line.len() > 0 && line.last() == '\r' {
            law_trailing_white_space_is_ignored(line.drop_last(), '\r');
            assert(line.drop_last().push('\r') =~= line);
        }
    }
    assert(ended.map_values(trim) =~= init.map_values(trim));
    assert(crate::text::trimmed_lines(ended) == crate::text::trimmed_lines(init));
    crate::text::lemma_trimmed_lines_push(init, lines.last());
    crate::text::lemma_trimmed_lines_push(ended, lines.last());
}

/// What has been hashed after `chunks` have been hashed, one by one, on top of `hashed`.
pub open spec fn hashed_chunks(hashed: Seq<u8>, chunks: Seq<Seq<u8>>) -> Seq<u8>
    decreases chunks.len(),
{
    if chunks.len() == 0 {
        hashed
    } else {
        hashed_chunks(hashed, chunks.drop_last()) + chunks.last()
    }
}

/// However a log is cut into chunks, the digest is that of the whole log.
pub proof fn law_digest_does_not_depend_on_chunks(chunks: Seq<Seq<u8>>)
    ensures
        crate::digest::sha256(hashed_chunks(Seq::empty(), chunks)) == crate::digest::sha256(
            chunks.flatten(),
        ),
{
    lemma_hashed_chunks(chunks);
}

proof fn lemma_hashed_chunks(chunks: Seq<Seq<u8>>)
    ensures
        hashed_chunks(Seq::empty(), chunks) == chunks.flatten(),
    decreases chunks.len(),
{
    if chunks.len() > 0 {
        lemma_hashed_chunks(chunks.drop_last());
        chunks.drop_last().lemma_flatten_push(chunks.last());
        assert(chunks.drop_last().push(chunks.last()) =~= chunks);
    }
}

/// Hexadecimal text has two characters for each byte, all of them among `0` to `9` and `a` to
/// `f`.
pub proof fn law_hex_is_lowercase(bytes: Seq<u8>)
    ensures
        crate::digest::hex(bytes).len() == 2 * bytes.len(),
        forall|i: int|
            0 <= i < crate::digest::hex(bytes).len() ==> ('0' <= #[trigger] crate::digest::hex(
                bytes,
            )[i] <= '9' || 'a' <= crate::digest::hex(bytes)[i] <= 'f'),
{
}

proof fn lemma_hex_of_byte(bytes: Seq<u8>, i: int)
    requires
        0 <= i < bytes.len(),
    ensures
        crate::digest::hex(bytes)[2 * i] == crate::digest::hex_digit(bytes[i] as int / 16),
        crate::digest::hex(bytes)[2 * i + 1] == crate::digest::hex_digit(bytes[i] as int % 16),
{
    assert((2 * i) / 2 == i && (2 * i) % 2 == 0);
    assert((2 * i + 1) / 2 == i && (2 * i + 1) % 2 == 1);
}

proof fn lemma_hex_digits_differ(x: int, y: int)
    requires
        0 <= x < 16,
        0 <= y < 16,
        crate::digest::hex_digit(x) == crate::digest::hex_digit(y),
    ensures
        x == y,
{
}

/// Different bytes have different hexadecimal texts.
pub proof fn law_hex_loses_nothing(a: Seq<u8>, b: Seq<u8>)
    requires
        crate::digest::hex(a) == crate::digest::hex(b),
    ensures
        a == b,
{
    assert(crate::digest::hex(a).len() == 2 * a.len());
    assert(crate::digest::hex(b).len() == 2 * b.len());
    assert forall|i: int| 0 <= i < a.len() implies a[i] == b[i] by {
        lemma_hex_of_byte(a, i);
        lemma_hex_of_byte(b, i);
        lemma_hex_digits_differ(a[i] as int / 16, b[i] as int / 16);
        lemma_hex_digits_differ(a[i] as int % 16, b[i] as int % 16);
    }
    assert(a =~= b);
}

/// The characters that count as white space are these, and no others.
pub proof fn law_white_space(c: char, res: bool)
    requires
        call_ensures(is_whitespace, (c,), res),
    ensures
        res == crate::text::white_space(c),
        res <==> {
            let code = c as int;
            ||| code == 0x9 || code == 0xa || code == 0xb || code == 0xc || code == 0xd
            ||| code == 0x20 || code == 0x85 || code == 0xa0 || code == 0x1680
            ||| code == 0x2000 || code == 0x2001 || code == 0x2002 || code == 0x2003
            ||| code == 0x2004 || code == 0x2005 || code == 0x2006 || code == 0x2007
            ||| code == 0x2008 || code == 0x2009 || code == 0x200a
            ||| code == 0x2028 || code == 0x2029 || code == 0x202f || code == 0x205f
            ||| code == 0x3000
        },
{
}

/// `is_blank` holds exactly of the texts in which every character is white space.
pub proof fn law_blank_texts(text: &str, res: bool)
    requires
        call_ensures(is_blank, (text,), res),
    ensures
        res <==> forall|i: int|
            0 <= i < text@.len() ==> crate::text::white_space(#[trigger] text@[i]),
{
}

proof fn lemma_split_of_joined(lines: Seq<Seq<char>>)
    requires
        lines.len() > 0,
        forall|i: int| 0 <= i < lines.len() ==> !(#[trigger] lines[i]).contains('\n'),
    ensures
        crate::text::split_lines(join_lines(lines)) == lines,
    decreases lines.len(),
{
    assert(!lines[lines.len() - 1].contains('\n'));
    lemma_single_line(lines.last());
    if lines.len() > 1 {
        lemma_split_of_joined(lines.drop_last());
        law_lines_of_joined_texts(join_lines(lines.drop_last()), lines.last());
    }
    assert(crate::text::split_lines(join_lines(lines)) =~= lines);
}

proof fn lemma_join_of_split(text: Seq<char>)
    ensures
        crate::text::split_lines(text).len() > 0,
        join_lines(crate::text::split_lines(text)) == text,
    decreases text.len(),
{
    let lines = crate::text::split_lines(text);
    if text.len() > 0 {
        let before = crate::text::split_lines(text.drop_last());
        lemma_join_of_split(text.drop_last());
        if text.last() == '\n' {
            assert(lines.drop_last() =~= before);
            assert(join_lines(lines) == join_lines(before).push('\n') + lines.last());
        } else {
            assert(lines.drop_last() =~= before.drop_last());
            assert(lines.last() == before.last().push(text.last()));
            assert(join_lines(lines) =~= join_lines(before).push(text.last()));
        }
    } else {
        assert(lines[0] =~= text);
    }
    assert(join_lines(lines) =~= text);
}

/// Whether `text` is what stands in `line` from `start` to `end`, with white space only before and
/// after it, and none at its ends.
pub open spec fn stands_at(line: Seq<char>, text: Seq<char>, start: int, end: int) -> bool {
    &&& 0 <= start <= end <= line.len()
    &&& text == line.subrange(start, end)
    &&& forall|i: int|
        0 <= i < start || end <= i < line.len() ==> crate::text::white_space(#[trigger] line[i])
    &&& start < end ==> !crate::text::white_space(line[start]) && !crate::text::white_space(
        line[end - 1],
    )
}

/// Whether `text` is what `line` holds besides the white space around it.
pub open spec fn is_text_of(text: Seq<char>, line: Seq<char>) -> bool {
    exists|start: int, end: int| #[trigger] stands_at(line, text, start, end)
}

proof fn lemma_trim_start_skips(line: Seq<char>, start: int)
    requires
        0 <= start <= line.len(),
        forall|i: int| 0 <= i < start ==> crate::text::white_space(#[trigger] line[i]),
        start < line.len() ==> !crate::text::white_space(line[start]),
    ensures
        crate::text::trim_start(line) == line.skip(start),
    decreases start,
{
    if start > 0 {
        assert(crate::text::white_space(line[0]));
        lemma_trim_start_skips(line.drop_first(), start - 1);
        assert(line.drop_first().skip(start - 1) =~= line.skip(start));
    } else {
        assert(line.skip(0) =~= line);
    }
}

proof fn lemma_trim_end_takes(line: Seq<char>, end: int)
    requires
        0 <= end <= line.len(),
        forall|i: int| end <= i < line.len() ==> crate::text::white_space(#[trigger] line[i]),
        end > 0 ==> !crate::text::white_space(line[end - 1]),
    ensures
        crate::text::trim_end(line) == line.take(end),
    decreases line.len() - end,
{
    if end < line.len() {
        assert(crate::text::white_space(line[line.len() - 1]));
        lemma_trim_end_takes(line.drop_last(), end);
        assert(line.drop_last().take(end) =~= line.take(end));
    } else {
        assert(line.take(end) =~= line);
    }
}

proof fn lemma_text_is_trimmed_line(line: Seq<char>, text: Seq<char>)
    requires
        is_text_of(text, line),
    ensures
        crate::text::trim(line) == text,
{
    let (start, end) = choose|start: int, end: int| #[trigger] stands_at(line, text, start, end);
    if start == end {
        assert(crate::text::blank(line));
        crate::text::lemma_blank_is_trimmed_away(line);
        assert(crate::text::trim(line) =~= text);
    } else {
        lemma_trim_start_skips(line, start);
        let rest = line.skip(start);
        assert forall|i: int| end - start <= i < rest.len() implies crate::text::white_space(
            #[trigger] rest[i],
        ) by {
            assert(rest[i] == line[i + start]);
        }
        assert(rest[end - start - 1] == line[end - 1]);
        lemma_trim_end_takes(rest, end - start);
        assert(rest.take(end - start) =~= text);
    }
}

proof fn lemma_line_has_text(line: Seq<char>) -> (text: Seq<char>)
    ensures
        is_text_of(text, line),
    decreases line.len(),
{
    if line.len() == 0 {
        assert(stands_at(line, line.subrange(0, 0), 0, 0));
        line.subrange(0, 0)
    } else if crate::text::white_space(line.last()) {
        let before = line.drop_last();
        let text = lemma_line_has_text(before);
        let (start, end) = choose|start: int, end: int|
            #[trigger] stands_at(before, text, start, end);
        assert(before.subrange(start, end) =~= line.subrange(start, end));
        assert forall|i: int|
            0 <= i < start || end <= i < line.len() implies crate::text::white_space(
            #[trigger] line[i],
        ) by {
            if i < before.len() {
                assert(before[i] == line[i]);
            }
        }
        assert(stands_at(line, text, start, end));
        text
    } else if crate::text::white_space(line.first()) {
        let after = line.drop_first();
        let text = lemma_line_has_text(after);
        let (start, end) = choose|start: int, end: int|
            #[trigger] stands_at(after, text, start, end);
        assert(after.subrange(start, end) =~= line.subrange(start + 1, end + 1));
        assert forall|i: int|
            0 <= i < start + 1 || end + 1 <= i < line.len() implies crate::text::white_space(
            #[trigger] line[i],
        ) by {
            if i > 0 {
                assert(after[i - 1] == line[i]);
            }
        }
        assert(stands_at(line, text, start + 1, end + 1));
        text
    } else {
        assert(stands_at(line, line.subrange(0, line.len() as int), 0, line.len() as int));
        line.subrange(0, line.len() as int)
    }
}

/// Whether `log` is `lines`, none of which holds a line feed, joined with line feeds, and `texts`
/// are what the lines hold besides the white space around it.
pub open spec fn is_laid_out(
    log: Seq<char>,
    lines: Seq<Seq<char>>,
    texts: Seq<Seq<char>>,
) -> bool {
    &&& lines.len() > 0
    &&& texts.len() == lines.len()
    &&& log == join_lines(lines)
    &&& forall|i: int| 0 <= i < lines.len() ==> !(#[trigger] lines[i]).contains('\n')
    &&& forall|i: int| 0 <= i < lines.len() ==> is_text_of(#[trigger] texts[i], lines[i])
}

/// Every log is laid out in some lines with some texts.
pub proof fn law_every_log_is_laid_out(log: Seq<char>)
    ensures
        exists|lines: Seq<Seq<char>>, texts: Seq<Seq<char>>| #[trigger]
            is_laid_out(log, lines, texts),
{
    let lines = crate::text::split_lines(log);
    lemma_join_of_split(log);
    lemma_no_line_feed_in_lines(log);
    let texts = Seq::new(lines.len(), |i: int| choose|text: Seq<char>| is_text_of(text, lines[i]));
    assert forall|i: int| 0 <= i < lines.len() implies is_text_of(#[trigger] texts[i], lines[i]) by {
        let text = lemma_line_has_text(lines[i]);
        assert(is_text_of(text, lines[i]));
    }
    assert(is_laid_out(log, lines, texts));
}

proof fn lemma_event_lines_of_layout(
    log: Seq<char>,
    lines: Seq<Seq<char>>,
    texts: Seq<Seq<char>>,
)
    requires
        is_laid_out(log, lines, texts),
    ensures
        crate::text::event_lines_of(log) == texts.filter(|line: Seq<char>| line.len() > 0),
{
    lemma_split_of_joined(lines);
    let trimmed = lines.map_values(|line: Seq<char>| crate::text::trim(line));
    assert forall|i: int| 0 <= i < lines.len() implies trimmed[i] == texts[i] by {
        lemma_text_is_trimmed_line(lines[i], texts[i]);
    }
    assert(trimmed =~= texts);
}

/// `event_lines` gives the texts of a log's lines that are not empty, all of them and in order.
pub proof fn law_event_lines_are_the_texts(
    log: &str,
    found: Vec<String>,
    lines: Seq<Seq<char>>,
    texts: Seq<Seq<char>>,
)
    requires
        call_ensures(event_lines, (log,), found),
        is_laid_out(log@, lines, texts),
    ensures
        crate::laws::picks(
            texts,
            |i: int| texts[i].len() > 0,
            Seq::new(found@.len(), |k: int| found@[k]@),
        ),
{
    lemma_event_lines_of_layout(log@, lines, texts);
    let p = |line: Seq<char>| line.len() > 0;
    let places = crate::laws::lemma_filter_picks(texts, p);
    let given = Seq::new(found@.len(), |k: int| found@[k]@);
    assert(given =~= crate::text::texts(found@));
    let chosen = |i: int| texts[i].len() > 0;
    let chosen_by_filter = |i: int| p(texts[i]);
    assert forall|k: int| 0 <= k < places.len() implies 0 <= #[trigger] places[k] < texts.len()
        && chosen(places[k]) && given[k] == texts[places[k]] by {
        assert(chosen_by_filter(places[k]));
    }
    assert forall|i: int| 0 <= i < texts.len() && #[trigger] chosen(i) implies places.contains(
        i,
    ) by {
        assert(chosen_by_filter(i));
    }
    assert(crate::laws::picks_at(texts, chosen, given, places));
}

/// The events as attempts that gave an event.
pub open spec fn given(events: Seq<TraceEvent>) -> Seq<Option<TraceEvent>> {
    Seq::new(events.len(), |k: int| Some(events[k]))
}

proof fn lemma_decoded_picks(attempts: Seq<Option<TraceEvent>>) -> (places: Seq<int>)
    ensures
        crate::laws::picks_at(
            attempts,
            |i: int| attempts[i] is Some,
            given(crate::event::decoded_events(attempts)),
            places,
        ),
    decreases attempts.len(),
{
    let chosen = |i: int| attempts[i] is Some;
    let picked = given(crate::event::decoded_events(attempts));
    if attempts.len() == 0 {
        Seq::empty()
    } else {
        let n = attempts.len() - 1;
        let init = attempts.drop_last();
        let before = lemma_decoded_picks(init);
        let chosen_before = |i: int| init[i] is Some;
        let picked_before = given(crate::event::decoded_events(init));
        let places = if attempts.last() is Some {
            before.push(n)
        } else {
            before
        };
        assert forall|i: int|
            0 <= i < attempts.len() && #[trigger] chosen(i) implies places.contains(i) by {
            if i < n {
                assert(chosen_before(i));
                let k = before.index_of(i);
                assert(places[k] == i);
            } else {
                assert(places[places.len() - 1] == n);
            }
        }
        assert forall|k: int|
            0 <= k < places.len() implies 0 <= #[trigger] places[k] < attempts.len() && chosen(
            places[k],
        ) && picked[k] == attempts[places[k]] by {
            if k < before.len() {
                assert(places[k] == before[k]);
                assert(chosen_before(before[k]));
                assert(picked_before[k] == init[before[k]]);
            }
        }
        places
    }
}

/// `keep_decoded` keeps the events that decoding gave, all of them, as they are and in order.
pub proof fn law_decoded_events_are_kept(
    attempts: Vec<Option<TraceEvent>>,
    events: Vec<TraceEvent>,
)
    requires
        call_ensures(keep_decoded, (attempts,), events),
    ensures
        crate::laws::picks(attempts@, |i: int| attempts@[i] is Some, given(events@)),
{
    let places = lemma_decoded_picks(attempts@);
    assert(crate::laws::picks_at(
        attempts@,
        |i: int| attempts@[i] is Some,
        given(events@),
        places,
    ));
}

/// `parse_ndjson` gives the events that `decode` gives for the texts of the log's lines, all of
/// them, as they are and in order. An empty text gives no event, and neither does one for which
/// `decode` gives none.
pub proof fn law_log_is_parsed_line_by_line<F: Fn(&str) -> Option<TraceEvent>>(
    input: &str,
    decode: F,
    events: Vec<TraceEvent>,
    lines: Seq<Seq<char>>,
    texts: Seq<Seq<char>>,
    expected: Seq<Option<TraceEvent>>,
)
    requires
        call_ensures(parse_ndjson::<F>, (input, decode), events),
        is_laid_out(input@, lines, texts),
        expected.len() == texts.len(),
        forall|i: int, s: &str, attempt: Option<TraceEvent>|
            #![trigger texts[i], call_ensures(decode, (s,), attempt)]
            0 <= i < texts.len() && texts[i].len() > 0 && s@ == texts[i] && call_ensures(
                decode,
                (s,),
                attempt,
            ) ==> attempt == expected[i],
    ensures
        crate::laws::picks(
            expected,
            |i: int| texts[i].len() > 0 && expected[i] is Some,
            given(events@),
        ),
{
    lemma_event_lines_of_layout(input@, lines, texts);
    let p = |line: Seq<char>| line.len() > 0;
    let tried = texts.filter(p);
    let attempts = choose|attempts: Seq<Option<TraceEvent>>|
        crate::event::decodes(decode, tried, attempts) && events@
            == #[trigger] crate::event::decoded_events(attempts);
    let outer = crate::laws::lemma_filter_picks(texts, p);
    let inner = lemma_decoded_picks(attempts);
    let is_tried = |i: int| p(texts[i]);
    let is_given = |k: int| attempts[k] is Some;
    assert forall|k: int| 0 <= k < tried.len() implies #[trigger] attempts[k]
        == expected[outer[k]] by {
        assert(tried[k] == texts[outer[k]] && is_tried(outer[k]));
        assert(crate::event::decodes_line(decode, tried[k], attempts[k]));
    }
    let places = Seq::new(inner.len(), |m: int| outer[inner[m]]);
    let chosen = |i: int| texts[i].len() > 0 && expected[i] is Some;
    assert forall|m: int| 0 <= m < places.len() implies 0 <= #[trigger] places[m] < expected.len()
        && chosen(places[m]) && given(events@)[m] == expected[places[m]] by {
        assert(is_given(inner[m]));
        assert(attempts[inner[m]] == expected[outer[inner[m]]]);
        assert(is_tried(outer[inner[m]]));
    }
    assert forall|i: int| 0 <= i < expected.len() && #[trigger] chosen(i) implies places.contains(
        i,
    ) by {
        assert(is_tried(i));
        let k = outer.index_of(i);
        assert(attempts[k] == expected[outer[k]]);
        assert(is_given(k));
        let m = inner.index_of(k);
        assert(places[m] == i);
    }
    assert forall|j: int, k: int| 0 <= j < k < places.len() implies places[j] < places[k] by {
        assert(inner[j] < inner[k]);
        assert(outer[inner[j]] < outer[inner[k]]);
    }
    assert(crate::laws::picks_at(expected, chosen, given(events@), places));
}

/// Where `decode` gives an event for each event line of a log, and nothing else, `parse_ndjson`
/// gives exactly those events, in order.
pub proof fn law_no_decodable_event_is_lost<F: Fn(&str) -> Option<TraceEvent>>(
    input: &str,
    decode: F,
    events: Vec<TraceEvent>,
    expected: Seq<TraceEvent>,
)
    requires
        call_ensures(parse_ndjson::<F>, (input, decode), events),
        expected.len() == crate::text::event_lines_of(input@).len(),
        forall|i: int, s: &str, attempt: Option<TraceEvent>|
            #![trigger expected[i], call_ensures(decode, (s,), attempt)]
            0 <= i < expected.len() && s@ == crate::text::event_lines_of(input@)[i]
                && call_ensures(decode, (s,), attempt) ==> attempt == Some(expected[i]),
    ensures
        events@ == expected,
{
    let lines = crate::text::event_lines_of(input@);
    let attempts = choose|attempts: Seq<Option<TraceEvent>>|
        crate::event::decodes(decode, lines, attempts) && events@
            == #[trigger] crate::event::decoded_events(attempts);
    assert forall|i: int| 0 <= i < expected.len() implies #[trigger] attempts[i] == Some(
        expected[i],
    ) by {
        assert(crate::event::decodes_line(decode, lines[i], attempts[i]));
    }
    lemma_all_decoded(expected, attempts);
}

/// A line adds one to the count exactly where some character of it is not white space and the
/// count has not reached the largest `u64`. What has been hashed stays as it was.
pub proof fn law_line_is_counted_unless_blank(scan: &mut LogScan, line: &str)
    requires
        call_ensures(LogScan::count_line, (scan, line), ()),
    ensures
        final(scan).counted() == old(scan).counted() + if old(scan).counted() < u64::MAX && exists|
            i: int,
        |
            0 <= i < line@.len() && !crate::text::white_space(#[trigger] line@[i]) {
            1int
        } else {
            0int
        },
        final(scan).hashed() == old(scan).hashed(),
{
}

/// A new scan has hashed nothing and counted nothing.
pub proof fn law_new_scan_has_seen_nothing(scan: LogScan)
    requires
        call_ensures(LogScan::new, (), scan),
    ensures
        scan.hashed().len() == 0,
        scan.counted() == 0,
{
}

/// A chunk is hashed whole, after what was hashed before it. The count stays as it was.
pub proof fn law_chunk_is_hashed_whole(scan: &mut LogScan, chunk: &[u8])
    requires
        call_ensures(LogScan::hash_chunk, (scan, chunk), ()),
    ensures
        final(scan).hashed().len() == old(scan).hashed().len() + chunk@.len(),
        forall|i: int|
            0 <= i < final(scan).hashed().len() ==> #[trigger] final(scan).hashed()[i] == if i
                < old(scan).hashed().len() {
                old(scan).hashed()[i]
            } else {
                chunk@[i - old(scan).hashed().len()]
            },
        final(scan).counted() == old(scan).counted(),
{
}

/// The room of a scan is what is left of the longest message after what has been hashed.
pub proof fn law_room_is_what_is_left(scan: &LogScan, room: u64)
    requires
        call_ensures(LogScan::room, (scan,), room),
    ensures
        room + scan.hashed().len() == MAX_MESSAGE_LEN,
{
}

/// The digest in what a scan says of a log is the one that `sha256_hex` gives for the bytes that
/// the scan has hashed.
pub proof fn law_scan_and_sha256_hex_agree(
    scan: LogScan,
    log_path: String,
    info: TracerInfo,
    bytes: &[u8],
    text: String,
)
    requires
        call_ensures(LogScan::finish, (scan, log_path), info),
        call_ensures(sha256_hex, (bytes,), text),
        scan.hashed() == bytes@,
    ensures
        info.log_sha256@ == text@,
        info.log_path == log_path,
        info.event_count == scan.counted(),
        info.tool@ == "ctrace"@,
        info.version is None,
        info.root_pid is None,
{
}

/// The longest message is the longest whose number of bits a `u64` can hold.
pub proof fn law_longest_message()
    ensures
        8 * MAX_MESSAGE_LEN <= u64::MAX,
        8 * (MAX_MESSAGE_LEN + 1) > u64::MAX,
{
}

/// `nibble_to_hex` gives the digit of the lower half of a byte.
pub proof fn law_nibble_is_spelled(nibble: u8, digit: u8)
    requires
        call_ensures(nibble_to_hex, (nibble,), digit),
    ensures
        digit as char == "0123456789abcdef"@[nibble as int % 16],
{
    lemma_hex_digits(nibble as int % 16);
}

proof fn lemma_hex_digits(value: int)
    requires
        0 <= value < 16,
    ensures
        crate::digest::hex_digit(value) == "0123456789abcdef"@[value],
{
    reveal_strlit("0123456789abcdef");
}

/// `hex_string` spells each byte with two digits, in order: the one of its higher half and the one
/// of its lower half.
pub proof fn law_bytes_are_spelled(bytes: &[u8], text: String)
    requires
        call_ensures(hex_string, (bytes,), text),
    ensures
        text@.len() == 2 * bytes@.len(),
        forall|i: int|
            #![trigger bytes@[i]]
            0 <= i < bytes@.len() ==> text@[2 * i] == "0123456789abcdef"@[bytes@[i] as int / 16]
                && text@[2 * i + 1] == "0123456789abcdef"@[bytes@[i] as int % 16],
{
    assert forall|i: int|
        #![trigger bytes@[i]]
        0 <= i < bytes@.len() implies text@[2 * i] == "0123456789abcdef"@[bytes@[i] as int / 16]
        && text@[2 * i + 1] == "0123456789abcdef"@[bytes@[i] as int % 16] by {
        lemma_hex_of_byte(bytes@, i);
        lemma_hex_digits(bytes@[i] as int / 16);
        lemma_hex_digits(bytes@[i] as int % 16);
    }
}

/// `sha256_hex` spells the digest of its message: 64 digits, two for each byte of it, in order.
pub proof fn law_digest_is_spelled(bytes: &[u8], text: String)
    requires
        call_ensures(sha256_hex, (bytes,), text),
    ensures
        text@.len() == 64,
        crate::digest::sha256(bytes@).len() == 32,
        forall|i: int|
            #![trigger crate::digest::sha256(bytes@)[i]]
            0 <= i < 32 ==> text@[2 * i] == "0123456789abcdef"@[crate::digest::sha256(
                bytes@,
            )[i] as int / 16] && text@[2 * i + 1] == "0123456789abcdef"@[crate::digest::sha256(
                bytes@,
            )[i] as int % 16],
{
    let digest = crate::digest::sha256(bytes@);
    assert(crate::digest::hex(digest).len() == 2 * digest.len());
    assert forall|i: int|
        #![trigger digest[i]]
        0 <= i < 32 implies text@[2 * i] == "0123456789abcdef"@[digest[i] as int / 16] && text@[2
        * i + 1] == "0123456789abcdef"@[digest[i] as int % 16] by {
        lemma_hex_of_byte(digest, i);
        lemma_hex_digits(digest[i] as int / 16);
        lemma_hex_digits(digest[i] as int % 16);
    }
}

} // verus!
