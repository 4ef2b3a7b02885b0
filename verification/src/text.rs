//! Text: comparison, whitespace, and the lines of a log.

use vstd::prelude::*;

verus! {

/// `String::push`: appends the given character to the string.
pub assume_specification[ String::push ](s: &mut String, c: char)
    ensures
        final(s)@ == old(s)@.push(c),
;

/// Whether `a` and `b` are the same text.
pub(crate) fn same_text(a: &str, b: &str) -> (same: bool)
    ensures
        same == (a@ == b@),
{
    let mut rest_a = a.chars();
    let mut rest_b = b.chars();
    let ghost mut n: int = 0;
    loop
        invariant
            0 <= n <= a@.len(),
            n <= b@.len(),
            vstd::std_specs::iter::IteratorSpec::remaining(&rest_a) == a@.skip(n),
            vstd::std_specs::iter::IteratorSpec::remaining(&rest_b) == b@.skip(n),
            forall|i: int| 0 <= i < n ==> a@[i] == b@[i],
        decreases a@.len() - n,
    {
        match (rest_a.next(), rest_b.next()) {
            (Some(x), Some(y)) => {
                if x != y {
                    assert(a@[n] != b@[n]);
                    return false;
                }
                proof {
                    n = n + 1;
                }
            },
            (None, None) => {
                assert(a@ =~= b@);
                return true;
            },
            _ => {
                return false;
            },
        }
    }
}

/// Whether `text` begins with `prefix`.
pub(crate) fn begins_with(text: &str, prefix: &str) -> (begins: bool)
    ensures
        begins == prefix@.is_prefix_of(text@),
{
    let mut rest_text = text.chars();
    let mut rest_prefix = prefix.chars();
    let ghost mut n: int = 0;
    loop
        invariant
            0 <= n <= text@.len(),
            n <= prefix@.len(),
            vstd::std_specs::iter::IteratorSpec::remaining(&rest_text) == text@.skip(n),
            vstd::std_specs::iter::IteratorSpec::remaining(&rest_prefix) == prefix@.skip(n),
            forall|i: int| 0 <= i < n ==> text@[i] == prefix@[i],
        decreases prefix@.len() - n,
    {
        match (rest_text.next(), rest_prefix.next()) {
            (_, None) => {
                return true;
            },
            (None, Some(_)) => {
                return false;
            },
            (Some(x), Some(y)) => {
                if x != y {
                    assert(text@[n] != prefix@[n]);
                    return false;
                }
                proof {
                    n = n + 1;
                }
            },
        }
    }
}

/// The characters with Unicode's `White_Space` property.
pub open spec fn white_space(c: char) -> bool {
    ||| '\u{9}' <= c <= '\u{d}'
    ||| c == '\u{20}'
    ||| c == '\u{85}'
    ||| c == '\u{a0}'
    ||| c == '\u{1680}'
    ||| '\u{2000}' <= c <= '\u{200a}'
    ||| '\u{2028}' <= c <= '\u{2029}'
    ||| c == '\u{202f}'
    ||| c == '\u{205f}'
    ||| c == '\u{3000}'
}

/// `text` without the white space that it begins with.
pub open spec fn trim_start(text: Seq<char>) -> Seq<char>
    decreases text.len(),
{
    if text.len() > 0 && white_space(text.first()) {
        trim_start(text.drop_first())
    } else {
        text
    }
}

/// `text` without the white space that it ends in.
pub open spec fn trim_end(text: Seq<char>) -> Seq<char>
    decreases text.len(),
{
    if text.len() > 0 && white_space(text.last()) {
        trim_end(text.drop_last())
    } else {
        text
    }
}

/// `text` without the white space around it.
pub open spec fn trim(text: Seq<char>) -> Seq<char> {
    trim_end(trim_start(text))
}

/// Whether `text` holds nothing but white space.
pub open spec fn blank(text: Seq<char>) -> bool {
    forall|i: int| 0 <= i < text.len() ==> white_space(#[trigger] text[i])
}

/// What stands between the line feeds of `text`, in order. A text with `n` line feeds has `n + 1`
/// such lines, the last of which is empty where the text ends in a line feed.
pub open spec fn split_lines(text: Seq<char>) -> Seq<Seq<char>>
    decreases text.len(),
{
    if text.len() == 0 {
        seq![Seq::empty()]
    } else {
        let before = split_lines(text.drop_last());
        if text.last() == '\n' {
            before.push(Seq::empty())
        } else {
            before.drop_last().push(before.last().push(text.last()))
        }
    }
}

/// The lines among `lines` that are not blank, each without the white space around it.
pub open spec fn trimmed_lines(lines: Seq<Seq<char>>) -> Seq<Seq<char>> {
    lines.map_values(|line: Seq<char>| trim(line)).filter(|line: Seq<char>| line.len() > 0)
}

/// The texts of `strings`.
pub open spec fn texts(strings: Seq<String>) -> Seq<Seq<char>> {
    strings.map_values(|s: String| s@)
}

/// The lines of a log that may each hold an event: those of its lines that are not blank, without
/// the white space around them. A carriage return before a line feed is such white space.
pub open spec fn event_lines_of(log: Seq<char>) -> Seq<Seq<char>> {
    trimmed_lines(split_lines(log))
}

pub(crate) proof fn lemma_trim_start_blank(text: Seq<char>)
    ensures
        blank(text) <==> trim_start(text).len() == 0,
        trim_start(text).len() > 0 ==> !white_space(trim_start(text).first()),
    decreases text.len(),
{
    if text.len() > 0 && white_space(text.first()) {
        let rest = text.drop_first();
        lemma_trim_start_blank(rest);
        if blank(rest) {
            assert forall|i: int| 0 <= i < text.len() implies white_space(#[trigger] text[i]) by {
                if i > 0 {
                    assert(rest[i - 1] == text[i]);
                }
            }
        } else {
            let i = choose|i: int| 0 <= i < rest.len() && !white_space(#[trigger] rest[i]);
            assert(text[i + 1] == rest[i]);
        }
    } else if text.len() > 0 {
        assert(!white_space(text[0]));
    }
}

proof fn lemma_trim_end_keeps_start(text: Seq<char>)
    requires
        text.len() > 0,
        !white_space(text.first()),
    ensures
        trim_end(text).len() > 0,
    decreases text.len(),
{
    if white_space(text.last()) {
        assert(text.drop_last().first() == text.first());
        lemma_trim_end_keeps_start(text.drop_last());
    }
}

/// A text is blank exactly where trimming leaves nothing of it.
pub(crate) proof fn lemma_blank_is_trimmed_away(text: Seq<char>)
    ensures
        blank(text) <==> trim(text).len() == 0,
{
    lemma_trim_start_blank(text);
    if !blank(text) {
        lemma_trim_end_keeps_start(trim_start(text));
    }
}

pub(crate) proof fn lemma_trimmed_lines_push(lines: Seq<Seq<char>>, line: Seq<char>)
    ensures
        trimmed_lines(lines.push(line)) == if trim(line).len() > 0 {
            trimmed_lines(lines).push(trim(line))
        } else {
            trimmed_lines(lines)
        },
{
    reveal(Seq::filter);
    let f = |line: Seq<char>| trim(line);
    assert(lines.push(line).map_values(f).drop_last() =~= lines.map_values(f));
}

/// Whether `c` has Unicode's `White_Space` property.
pub fn is_whitespace(c: char) -> (res: bool)
    ensures
        res == white_space(c),
{
    ('\u{9}' <= c && c <= '\u{d}') || c == '\u{20}' || c == '\u{85}' || c == '\u{a0}' || c
        == '\u{1680}' || ('\u{2000}' <= c && c <= '\u{200a}') || ('\u{2028}' <= c && c <= '\u{2029}')
        || c == '\u{202f}' || c == '\u{205f}' || c == '\u{3000}'
}

/// Whether `text` holds nothing but white space.
pub fn is_blank(text: &str) -> (res: bool)
    ensures
        res == blank(text@),
{
    for c in it: text.chars()
        invariant
            forall|i: int| 0 <= i < it.index() ==> white_space(#[trigger] text@[i]),
            it.seq() == text@,
    {
        if !is_whitespace(c) {
            assert(!white_space(text@[it.index() as int]));
            return false;
        }
    }
    true
}

/// The text of `line` without the white space around it.
fn trimmed(line: &Vec<char>) -> (res: String)
    ensures
        res@ == trim(line@),
{
    let mut start: usize = 0;
    assert(line@.skip(0) =~= line@);
    while start < line.len() && is_whitespace(line[start])
        invariant
            start <= line.len(),
            trim_start(line@.skip(start as int)) == trim_start(line@),
        decreases line.len() - start,
    {
        assert(line@.skip(start as int).drop_first() =~= line@.skip(start + 1));
        start = start + 1;
    }
    let mut end: usize = line.len();
    assert(line@.subrange(start as int, end as int) =~= line@.skip(start as int));
    while end > start && is_whitespace(line[end - 1])
        invariant
            start <= end <= line.len(),
            trim_end(line@.subrange(start as int, end as int)) == trim(line@),
        decreases end,
    {
        assert(line@.subrange(start as int, end as int).drop_last() =~= line@.subrange(
            start as int,
            end - 1,
        ));
        end = end - 1;
    }
    let mut res = String::new();
    let mut i: usize = start;
    while i < end
        invariant
            start <= i <= end <= line.len(),
            res@ == line@.subrange(start as int, i as int),
        decreases end - i,
    {
        res.push(line[i]);
        i = i + 1;
    }
    res
}

/// The lines of `log` that may each hold an event: those of its lines that are not blank, without
/// the white space around them, in order.
pub fn event_lines(log: &str) -> (lines: Vec<String>)
    ensures
        texts(lines@) == event_lines_of(log@),
{
    let mut lines: Vec<String> = Vec::new();
    let mut line: Vec<char> = Vec::new();
    for c in it: log.chars()
        invariant
            it.seq() == log@,
            split_lines(log@.take(it.index() as int)).len() > 0,
            line@ == split_lines(log@.take(it.index() as int)).last(),
            texts(lines@) == trimmed_lines(split_lines(log@.take(it.index() as int)).drop_last()),
    {
        let ghost seen = log@.take(it.index() as int);
        assert(log@.take(it.index() + 1).drop_last() =~= seen);
        assert(split_lines(seen).drop_last().push(line@) =~= split_lines(seen));
        if c == '\n' {
            proof {
                lemma_trimmed_lines_push(split_lines(seen).drop_last(), line@);
            }
            push_event_line(&mut lines, &line);
            line = Vec::new();
            assert(split_lines(log@.take(it.index() + 1)).drop_last() =~= split_lines(seen));
        } else {
            line.push(c);
            assert(split_lines(log@.take(it.index() + 1)).drop_last() =~= split_lines(
                seen,
            ).drop_last());
        }
    }
    assert(log@.take(log@.len() as int) =~= log@);
    assert(split_lines(log@).drop_last().push(line@) =~= split_lines(log@));
    proof {
        lemma_trimmed_lines_push(split_lines(log@).drop_last(), line@);
    }
    push_event_line(&mut lines, &line);
    lines
}

/// Appends `line` to `lines`, without the white space around it, unless it is blank.
fn push_event_line(lines: &mut Vec<String>, line: &Vec<char>)
    ensures
        texts(final(lines)@) == if trim(line@).len() > 0 {
            texts(old(lines)@).push(trim(line@))
        } else {
            texts(old(lines)@)
        },
{
    let text = trimmed(line);
    if !text.as_str().is_empty() {
        lines.push(text);
    }
}

} // verus!
