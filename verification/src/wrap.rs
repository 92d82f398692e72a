//! Lines that fit: the display width of text, and text broken to a width.

use vstd::prelude::*;
use vstd::string::*;

use crate::text::{chars_of, text_of};

verus! {

use crate::text::views;

/// The width that the terminal gives a character, or nothing for a control character.
pub uninterp spec fn char_width(c: char) -> Option<usize>;

/// Whether `c` is a control character.
pub open spec fn is_control(c: char) -> bool {
    let code = c as u32;
    code < 0x20 || 0x7F <= code < 0xA0
}

/// Trusted: `unicode_width::UnicodeWidthChar::width`, a function of the character alone. It
/// gives nothing for exactly the control characters, 1 for the other characters of ASCII, and
/// never more than 3.
#[verifier::external_body]
fn outside_width(c: char) -> (width: Option<usize>)
    ensures
        width == char_width(c),
        width is None <==> is_control(c),
        0x20 <= c as u32 && (c as u32) < 0x7F ==> width == Some(1usize),
        width matches Some(columns) ==> columns <= 3,
{
    unicode_width::UnicodeWidthChar::width(c)
}

/// The columns that a character takes: none for a control character.
pub open spec fn columns(c: char) -> nat {
    match char_width(c) {
        Some(width) => width as nat,
        None => 0,
    }
}

/// The columns that a text takes.
pub open spec fn total_columns(s: Seq<char>) -> nat
    decreases s.len(),
{
    if s.len() == 0 {
        0
    } else {
        total_columns(s.drop_last()) + columns(s.last())
    }
}

/// The columns that a character takes.
pub fn char_display_width(ch: char) -> (width: usize)
    ensures
        width == columns(ch),
        width <= 3,
        is_control(ch) ==> width == 0,
        0x20 <= ch as u32 && (ch as u32) < 0x7F ==> width == 1,
{
    match outside_width(ch) {
        Some(width) => width,
        None => 0,
    }
}

/// How many characters stand on a line that holds at least `n`: no more are added once the
/// line is full, or where the next one would not fit.
pub open spec fn filled(s: Seq<char>, n: int, width: nat) -> int
    decreases s.len() - n,
{
    if n >= s.len() || total_columns(s.take(n)) >= width || total_columns(s.take(n + 1))
        > width {
        n
    } else {
        filled(s, n + 1, width)
    }
}

/// A text without line breaks, broken to a width: each line takes as many characters as fit,
/// and at least one.
pub open spec fn broken(s: Seq<char>, width: nat) -> Seq<Seq<char>>
    decreases s.len(),
{
    let n = filled(s, 1, width);
    if s.len() == 0 || n < 1 || n > s.len() {
        Seq::empty()
    } else {
        seq![s.take(n)] + broken(s.skip(n), width)
    }
}

/// A text parted at its line breaks.
pub open spec fn raw_lines(s: Seq<char>) -> Seq<Seq<char>>
    decreases s.len(),
{
    if s.len() == 0 {
        seq![Seq::empty()]
    } else {
        let before = raw_lines(s.drop_last());
        if s.last() == '\n' {
            before.push(Seq::empty())
        } else {
            before.update(before.len() - 1, before.last().push(s.last()))
        }
    }
}

/// The lines of one part of a text: an empty part is an empty line.
pub open spec fn broken_line(s: Seq<char>, width: nat) -> Seq<Seq<char>> {
    if s.len() == 0 {
        seq![Seq::empty()]
    } else {
        broken(s, width)
    }
}

/// The lines of several parts of a text.
pub open spec fn broken_lines(parts: Seq<Seq<char>>, width: nat) -> Seq<Seq<char>>
    decreases parts.len(),
{
    if parts.len() == 0 {
        Seq::empty()
    } else {
        broken_lines(parts.drop_last(), width) + broken_line(parts.last(), width)
    }
}

/// A text as lines of a width.
pub open spec fn wrapped(s: Seq<char>, width: nat) -> Seq<Seq<char>> {
    broken_lines(raw_lines(s), width)
}

/// The lines of a text, one after the other.
pub open spec fn concatenated(lines: Seq<Seq<char>>) -> Seq<char>
    decreases lines.len(),
{
    if lines.len() == 0 {
        Seq::empty()
    } else {
        concatenated(lines.drop_last()) + lines.last()
    }
}

/// A text without its line breaks.
pub open spec fn without_breaks(s: Seq<char>) -> Seq<char>
    decreases s.len(),
{
    if s.len() == 0 {
        Seq::empty()
    } else if s.last() == '\n' {
        without_breaks(s.drop_last())
    } else {
        without_breaks(s.drop_last()).push(s.last())
    }
}

proof fn lemma_filled(s: Seq<char>, n: int, width: nat)
    requires
        0 <= n <= s.len(),
    ensures
        n <= filled(s, n, width) <= s.len(),
        n < filled(s, n, width) ==> total_columns(s.take(filled(s, n, width))) <= width,
    decreases s.len() - n,
{
    if !(n >= s.len() || total_columns(s.take(n)) >= width || total_columns(s.take(n + 1))
        > width) {
        lemma_filled(s, n + 1, width);
    }
}

proof fn lemma_raw_lines_nonempty(s: Seq<char>)
    ensures
        raw_lines(s).len() > 0,
    decreases s.len(),
{
    if s.len() > 0 {
        lemma_raw_lines_nonempty(s.drop_last());
    }
}

proof fn lemma_concatenated_front(first: Seq<char>, rest: Seq<Seq<char>>)
    ensures
        concatenated(seq![first] + rest) == first + concatenated(rest),
    decreases rest.len(),
{
    let all = seq![first] + rest;
    if rest.len() == 0 {
        assert(all.drop_last() == Seq::<Seq<char>>::empty());
        assert(concatenated(all.drop_last()) == Seq::<char>::empty());
        assert(all.last() == first);
        assert(first + concatenated(rest) == first);
        assert(concatenated(all) == first);
    } else {
        lemma_concatenated_front(first, rest.drop_last());
        assert(all.drop_last() == seq![first] + rest.drop_last());
        assert(all.last() == rest.last());
        assert(first + (concatenated(rest.drop_last()) + rest.last()) == (first + concatenated(
            rest.drop_last(),
        )) + rest.last());
    }
}

proof fn lemma_concatenated_add(a: Seq<Seq<char>>, b: Seq<Seq<char>>)
    ensures
        concatenated(a + b) == concatenated(a) + concatenated(b),
    decreases b.len(),
{
    if b.len() == 0 {
        assert(a + b == a);
        assert(concatenated(a) + concatenated(b) == concatenated(a));
    } else {
        lemma_concatenated_add(a, b.drop_last());
        assert((a + b).drop_last() == a + b.drop_last());
        assert((a + b).last() == b.last());
        assert(concatenated(a) + (concatenated(b.drop_last()) + b.last()) == (concatenated(a)
            + concatenated(b.drop_last())) + b.last());
    }
}

proof fn lemma_broken_keeps(s: Seq<char>, width: nat)
    ensures
        concatenated(broken(s, width)) == s,
    decreases s.len(),
{
    if s.len() > 0 {
        let n = filled(s, 1, width);
        lemma_filled(s, 1, width);
        lemma_broken_keeps(s.skip(n), width);
        lemma_concatenated_front(s.take(n), broken(s.skip(n), width));
        assert(s.take(n) + s.skip(n) == s);
    }
}

proof fn lemma_broken_line_keeps(s: Seq<char>, width: nat)
    ensures
        concatenated(broken_line(s, width)) == s,
{
    if s.len() == 0 {
        lemma_concatenated_front(Seq::empty(), Seq::empty());
        assert(seq![Seq::<char>::empty()] + Seq::<Seq<char>>::empty() == seq![
            Seq::<char>::empty(),
        ]);
        assert(concatenated(Seq::<Seq<char>>::empty()) == Seq::<char>::empty());
        assert(concatenated(broken_line(s, width)) == s);
    } else {
        lemma_broken_keeps(s, width);
    }
}

proof fn lemma_broken_lines_keep(parts: Seq<Seq<char>>, width: nat)
    ensures
        concatenated(broken_lines(parts, width)) == concatenated(parts),
    decreases parts.len(),
{
    if parts.len() > 0 {
        lemma_broken_lines_keep(parts.drop_last(), width);
        lemma_broken_line_keeps(parts.last(), width);
        lemma_concatenated_add(
            broken_lines(parts.drop_last(), width),
            broken_line(parts.last(), width),
        );
    }
}

proof fn lemma_raw_lines_keep(s: Seq<char>)
    ensures
        concatenated(raw_lines(s)) == without_breaks(s),
    decreases s.len(),
{
    lemma_raw_lines_nonempty(s);
    let all = raw_lines(s);
    if s.len() == 0 {
        assert(all.drop_last() == Seq::<Seq<char>>::empty());
        assert(concatenated(all.drop_last()) == Seq::<char>::empty());
        assert(concatenated(all) == Seq::<char>::empty());
    } else {
        let before = raw_lines(s.drop_last());
        lemma_raw_lines_nonempty(s.drop_last());
        lemma_raw_lines_keep(s.drop_last());
        if s.last() == '\n' {
            assert(all.drop_last() == before);
            assert(concatenated(all) == concatenated(before));
        } else {
            assert(all.drop_last() == before.drop_last());
            assert(all.last() == before.last().push(s.last()));
            assert(concatenated(all) == concatenated(before).push(s.last()));
        }
    }
}

/// Wrapping loses no character but the line breaks, and adds none.
pub proof fn law_wrapping_keeps_the_text(s: Seq<char>, width: nat)
    ensures
        concatenated(wrapped(s, width)) == without_breaks(s),
{
    lemma_raw_lines_keep(s);
    lemma_broken_lines_keep(raw_lines(s), width);
}

/// Whether a line fits a width, or holds but one character.
pub open spec fn fits(line: Seq<char>, width: nat) -> bool {
    line.len() <= 1 || total_columns(line) <= width
}

proof fn lemma_broken_fits(s: Seq<char>, width: nat)
    ensures
        forall|i: int|
            0 <= i < broken(s, width).len() ==> fits(#[trigger] broken(s, width)[i], width),
        s.len() > 0 ==> broken(s, width).len() > 0,
    decreases s.len(),
{
    if s.len() > 0 {
        let n = filled(s, 1, width);
        lemma_filled(s, 1, width);
        lemma_broken_fits(s.skip(n), width);
        let lines = broken(s, width);
        assert forall|i: int| 0 <= i < lines.len() implies fits(#[trigger] lines[i], width) by {
            if i > 0 {
                assert(lines[i] == broken(s.skip(n), width)[i - 1]);
            }
        }
    }
}

proof fn lemma_broken_lines_fit(parts: Seq<Seq<char>>, width: nat)
    ensures
        forall|i: int|
            0 <= i < broken_lines(parts, width).len() ==> fits(
                #[trigger] broken_lines(parts, width)[i],
                width,
            ),
        parts.len() > 0 ==> broken_lines(parts, width).len() > 0,
    decreases parts.len(),
{
    if parts.len() > 0 {
        let before = broken_lines(parts.drop_last(), width);
        let added = broken_line(parts.last(), width);
        lemma_broken_lines_fit(parts.drop_last(), width);
        lemma_broken_fits(parts.last(), width);
        let lines = broken_lines(parts, width);
        assert forall|i: int| 0 <= i < lines.len() implies fits(#[trigger] lines[i], width) by {
            if i < before.len() {
                assert(lines[i] == before[i]);
            } else {
                assert(lines[i] == added[i - before.len()]);
            }
        }
    }
}

/// Every line of a wrapped text fits the width, but for single characters that are wider, and
/// there is at least one line.
pub proof fn law_wrapped_lines_fit(s: Seq<char>, width: nat)
    ensures
        wrapped(s, width).len() > 0,
        forall|i: int|
            0 <= i < wrapped(s, width).len() ==> fits(#[trigger] wrapped(s, width)[i], width),
{
    lemma_raw_lines_nonempty(s);
    lemma_broken_lines_fit(raw_lines(s), width);
}

/// Breaks `chars[from..to]`, which holds no line break, and appends its lines.
fn break_line(lines: &mut Vec<String>, chars: &Vec<char>, from: usize, to: usize, width: usize)
    requires
        from < to <= chars@.len(),
    ensures
        views(final(lines)@) == views(old(lines)@) + broken(
            chars@.subrange(from as int, to as int),
            width as nat,
        ),
{
    let ghost goal = views(lines@) + broken(chars@.subrange(from as int, to as int), width as nat);
    let mut start: usize = from;
    while start < to
        invariant
            from <= start <= to <= chars@.len(),
            views(lines@) + broken(chars@.subrange(start as int, to as int), width as nat) == goal,
        decreases to - start,
    {
        let ghost rest = chars@.subrange(start as int, to as int);
        let ghost before = lines@;
        let mut end: usize = start + 1;
        let mut used: usize = char_display_width(chars[start]);
        proof {
            reveal_with_fuel(total_columns, 2);
            assert(rest.take(1).drop_last() == Seq::<char>::empty());
            assert(rest.take(1).last() == chars@[start as int]);
        }
        let mut open = used < width;
        while open && end < to
            invariant
                from <= start < end <= to <= chars@.len(),
                rest == chars@.subrange(start as int, to as int),
                used == total_columns(rest.take(end - start)),
                filled(rest, 1, width as nat) == filled(rest, end - start, width as nat),
                open ==> used < width,
                !open ==> filled(rest, end - start, width as nat) == end - start,
            decreases to - end, open as int,
        {
            let more = char_display_width(chars[end]);
            proof {
                let longer = rest.take(end - start + 1);
                assert(longer.drop_last() == rest.take(end - start));
                assert(longer.last() == chars@[end as int]);
            }
            if more > width - used {
                open = false;
            } else {
                used += more;
                end += 1;
                open = used < width;
            }
        }
        proof {
            lemma_filled(rest, 1, width as nat);
            let n = filled(rest, 1, width as nat);
            assert(n == end - start);
            assert(rest.take(n) == chars@.subrange(start as int, end as int));
            assert(rest.skip(n) == chars@.subrange(end as int, to as int));
        }
        let line = text_of(chars, start, end);
        lines.push(line);
        proof {
            assert(views(lines@) == views(before).push(line@));
            assert(views(lines@) + broken(rest.skip(end - start), width as nat) == views(before)
                + (seq![line@] + broken(rest.skip(end - start), width as nat)));
        }
        start = end;
    }
    assert(chars@.subrange(to as int, to as int) == Seq::<char>::empty());
    assert(views(lines@) == goal);
}

proof fn lemma_raw_lines_step(s: Seq<char>, from: int, at: int)
    requires
        0 <= from <= at < s.len(),
        raw_lines(s.take(at)).last() == s.subrange(from, at),
    ensures
        s[at] == '\n' ==> raw_lines(s.take(at + 1)) == raw_lines(s.take(at)).push(Seq::empty()),
        s[at] != '\n' ==> raw_lines(s.take(at + 1)).drop_last() == raw_lines(
            s.take(at),
        ).drop_last() && raw_lines(s.take(at + 1)).last() == s.subrange(from, at + 1),
{
    lemma_raw_lines_nonempty(s.take(at));
    assert(s.take(at + 1).drop_last() == s.take(at));
    assert(s.take(at + 1).last() == s[at]);
    if s[at] != '\n' {
        assert(s.subrange(from, at).push(s[at]) == s.subrange(from, at + 1));
        assert(raw_lines(s.take(at + 1)).drop_last() == raw_lines(s.take(at)).drop_last());
    }
}

/// `text` as lines of a width. A line break in the text ends a line.
pub fn wrap_line(text: &str, width: usize) -> (lines: Vec<String>)
    ensures
        views(lines@) == wrapped(text@, width as nat),
{
    let chars = chars_of(text);
    let mut lines: Vec<String> = Vec::new();
    let mut from: usize = 0;
    let mut at: usize = 0;
    assert(chars@.take(0) == Seq::<char>::empty());
    assert(chars@.subrange(0, 0) == Seq::<char>::empty());
    assert(raw_lines(chars@.take(0)).drop_last() == Seq::<Seq<char>>::empty());
    assert(views(lines@) == Seq::<Seq<char>>::empty());
    while at < chars.len()
        invariant
            from <= at <= chars@.len(),
            raw_lines(chars@.take(at as int)).len() > 0,
            raw_lines(chars@.take(at as int)).last() == chars@.subrange(from as int, at as int),
            views(lines@) == broken_lines(
                raw_lines(chars@.take(at as int)).drop_last(),
                width as nat,
            ),
        decreases chars@.len() - at,
    {
        proof {
            lemma_raw_lines_step(chars@, from as int, at as int);
            lemma_raw_lines_nonempty(chars@.take(at + 1));
        }
        if chars[at] == '\n' {
            let ghost parts = raw_lines(chars@.take(at as int));
            assert(raw_lines(chars@.take(at + 1)).drop_last() == parts);
            append_part(&mut lines, &chars, from, at, width);
            from = at + 1;
            assert(chars@.subrange(from as int, at + 1) == Seq::<char>::empty());
        }
        at += 1;
    }
    assert(chars@.take(chars@.len() as int) == chars@);
    append_part(&mut lines, &chars, from, at, width);
    lines
}

/// Appends the lines of `chars[from..to]`, which holds no line break.
fn append_part(lines: &mut Vec<String>, chars: &Vec<char>, from: usize, to: usize, width: usize)
    requires
        from <= to <= chars@.len(),
    ensures
        views(final(lines)@) == views(old(lines)@) + broken_line(
            chars@.subrange(from as int, to as int),
            width as nat,
        ),
{
    if from == to {
        let empty: String = String::new();
        assert(empty@ == Seq::<char>::empty());
        lines.push(empty);
        assert(chars@.subrange(from as int, to as int) == Seq::<char>::empty());
        assert(views(lines@) == views(old(lines)@) + seq![Seq::<char>::empty()]);
    } else {
        break_line(lines, chars, from, to, width);
    }
}

proof fn lemma_raw_lines_add(a: Seq<char>, b: Seq<char>)
    ensures
        raw_lines(a.push('\n') + b) == raw_lines(a) + raw_lines(b),
    decreases b.len(),
{
    let whole = a.push('\n') + b;
    lemma_raw_lines_nonempty(a);
    lemma_raw_lines_nonempty(b);
    if b.len() == 0 {
        assert(whole == a.push('\n'));
        assert(whole.drop_last() == a);
        assert(raw_lines(whole) == raw_lines(a) + raw_lines(b));
    } else {
        lemma_raw_lines_add(a, b.drop_last());
        lemma_raw_lines_nonempty(b.drop_last());
        assert(whole.drop_last() == a.push('\n') + b.drop_last());
        assert(whole.last() == b.last());
        assert(raw_lines(whole) == raw_lines(a) + raw_lines(b));
    }
}

proof fn lemma_broken_lines_add(a: Seq<Seq<char>>, b: Seq<Seq<char>>, width: nat)
    ensures
        broken_lines(a + b, width) == broken_lines(a, width) + broken_lines(b, width),
    decreases b.len(),
{
    if b.len() == 0 {
        assert(a + b == a);
        assert(broken_lines(a + b, width) == broken_lines(a, width) + broken_lines(b, width));
    } else {
        lemma_broken_lines_add(a, b.drop_last(), width);
        assert((a + b).drop_last() == a + b.drop_last());
        assert((a + b).last() == b.last());
        assert(broken_lines(a + b, width) == broken_lines(a, width) + broken_lines(b, width));
    }
}

/// A line break begins a new line: what stands before it and behind it is wrapped apart.
pub proof fn law_line_breaks_begin_lines(a: Seq<char>, b: Seq<char>, width: nat)
    ensures
        wrapped(a.push('\n') + b, width) == wrapped(a, width) + wrapped(b, width),
{
    lemma_raw_lines_add(a, b);
    lemma_broken_lines_add(raw_lines(a), raw_lines(b), width);
}

proof fn lemma_one_raw_line(s: Seq<char>)
    requires
        !s.contains('\n'),
    ensures
        raw_lines(s) == seq![s],
    decreases s.len(),
{
    if s.len() > 0 {
        let before = s.drop_last();
        assert(s[s.len() - 1] != '\n');
        assert forall|i: int| 0 <= i < before.len() implies before[i] != '\n' by {
            assert(s.contains(s[i]));
        }
        lemma_one_raw_line(before);
        assert(before.push(s.last()) == s);
        assert(raw_lines(s) == seq![s]);
    } else {
        assert(s == Seq::<char>::empty());
        assert(raw_lines(s) == seq![s]);
    }
}

proof fn lemma_filled_stops(s: Seq<char>, n: int, width: nat)
    requires
        0 <= n <= s.len(),
    ensures
        ({
            let end = filled(s, n, width);
            end < s.len() ==> total_columns(s.take(end)) >= width || total_columns(s.take(end + 1))
                > width
        }),
    decreases s.len() - n,
{
    if !(n >= s.len() || total_columns(s.take(n)) >= width || total_columns(s.take(n + 1))
        > width) {
        lemma_filled_stops(s, n + 1, width);
    }
}

proof fn lemma_broken_is_full(s: Seq<char>, width: nat)
    ensures
        ({
            let lines = broken(s, width);
            &&& forall|i: int| 0 <= i < lines.len() ==> (#[trigger] lines[i]).len() > 0
            &&& forall|i: int|
                0 <= i < lines.len() - 1 ==> total_columns(#[trigger] lines[i]) >= width
                    || total_columns(lines[i].push(lines[i + 1][0])) > width
            &&& s.len() > 0 ==> lines.len() > 0 && lines[0][0] == s[0]
        }),
    decreases s.len(),
{
    if s.len() > 0 {
        let n = filled(s, 1, width);
        lemma_filled(s, 1, width);
        lemma_filled_stops(s, 1, width);
        let rest = broken(s.skip(n), width);
        lemma_broken_is_full(s.skip(n), width);
        let lines = broken(s, width);
        assert(lines[0] == s.take(n));
        assert forall|i: int| 0 <= i < lines.len() implies (#[trigger] lines[i]).len() > 0 by {
            if i > 0 {
                assert(lines[i] == rest[i - 1]);
            }
        }
        assert forall|i: int| 0 <= i < lines.len() - 1 implies total_columns(#[trigger] lines[i])
            >= width || total_columns(lines[i].push(lines[i + 1][0])) > width by {
            assert(lines[i + 1] == rest[i]);
            if i > 0 {
                assert(lines[i] == rest[i - 1]);
            } else {
                assert(n < s.len());
                assert(rest[0][0] == s[n]);
                assert(s.take(n).push(s[n]) == s.take(n + 1));
            }
        }
    }
}

/// A text without line breaks is broken only where it must be: every line but the last is full, or
/// the next character would not have fit. No line is empty, but for the one of an empty text.
pub proof fn law_lines_are_filled(s: Seq<char>, width: nat)
    requires
        !s.contains('\n'),
    ensures
        ({
            let lines = wrapped(s, width);
            &&& s.len() == 0 ==> lines.len() == 1
            &&& s.len() > 0 ==> forall|i: int|
                0 <= i < lines.len() ==> (#[trigger] lines[i]).len() > 0
            &&& s.len() > 0 ==> forall|i: int|
                0 <= i < lines.len() - 1 ==> total_columns(#[trigger] lines[i]) >= width
                    || total_columns(lines[i].push(lines[i + 1][0])) > width
        }),
{
    lemma_one_raw_line(s);
    let parts = raw_lines(s);
    assert(parts.drop_last() == Seq::<Seq<char>>::empty());
    assert(parts.last() == s);
    assert(broken_lines(parts.drop_last(), width) == Seq::<Seq<char>>::empty());
    assert(wrapped(s, width) == broken_line(s, width));
    lemma_broken_is_full(s, width);
}

/// The lines of a wrapped text hold the text, in order, but for its line breaks, and each fits the
/// width or holds but one character.
pub proof fn law_lines_hold_the_text(text: &str, width: usize, lines: Vec<String>)
    requires
        call_ensures(wrap_line, (text, width), lines),
    ensures
        concatenated(views(lines@)) == without_breaks(text@),
        lines@.len() > 0,
        forall|i: int|
            0 <= i < lines@.len() ==> (#[trigger] lines@[i])@.len() <= 1 || total_columns(
                lines@[i]@,
            ) <= width,
{
    law_wrapping_keeps_the_text(text@, width as nat);
    law_wrapped_lines_fit(text@, width as nat);
    assert(views(lines@).len() == lines@.len());
    assert forall|i: int| 0 <= i < lines@.len() implies (#[trigger] lines@[i])@.len() <= 1
        || total_columns(lines@[i]@) <= width by {
        assert(views(lines@)[i] == lines@[i]@);
        assert(fits(wrapped(text@, width as nat)[i], width as nat));
    }
}

} // verus!
