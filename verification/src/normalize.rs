//! Transcript text as it is shown: without the spaces that a recogniser puts between CJK
//! characters.

use vstd::prelude::*;
use vstd::string::*;

use crate::text::chars_of;

verus! {

use crate::text::is_white;

/// Whether `c` is written without spaces around it: Han, kana or hangul.
pub open spec fn cjk(c: char) -> bool {
    let code = c as u32;
    ||| 0x3400 <= code <= 0x4DBF
    ||| 0x4E00 <= code <= 0x9FFF
    ||| 0xF900 <= code <= 0xFAFF
    ||| 0x3040 <= code <= 0x309F
    ||| 0x30A0 <= code <= 0x30FF
    ||| 0xAC00 <= code <= 0xD7AF
}

/// Whether `c` is CJK punctuation.
pub open spec fn cjk_punctuation(c: char) -> bool {
    0x3000 <= c as u32 <= 0x303F
}

/// Whether nothing stands between two words, by the characters that meet there: both are CJK,
/// or punctuation follows.
pub open spec fn closes_up(previous: char, next: char) -> bool {
    ||| (cjk(previous) || cjk_punctuation(previous)) && (cjk(next) || cjk_punctuation(next))
    ||| cjk_punctuation(next)
}

/// The words of a text: what stands between whitespace.
pub open spec fn words(s: Seq<char>) -> Seq<Seq<char>>
    decreases s.len(),
{
    if s.len() == 0 {
        Seq::empty()
    } else {
        let before = words(s.drop_last());
        if is_white(s.last()) {
            before
        } else if s.len() == 1 || is_white(s[s.len() - 2]) || before.len() == 0 {
            before.push(seq![s.last()])
        } else {
            before.update(before.len() - 1, before.last().push(s.last()))
        }
    }
}

/// What stands between two words.
pub open spec fn gap(previous: Seq<char>, next: Seq<char>) -> Seq<char> {
    if closes_up(previous.last(), next[0]) {
        Seq::empty()
    } else {
        seq![' ']
    }
}

/// The words with one space between them, or none where they close up.
pub open spec fn spaced(words: Seq<Seq<char>>) -> Seq<char>
    decreases words.len(),
{
    if words.len() == 0 {
        Seq::empty()
    } else if words.len() == 1 {
        words[0]
    } else {
        spaced(words.drop_last()) + gap(words[words.len() - 2], words.last()) + words.last()
    }
}

/// A transcript text as it is shown.
pub open spec fn normalized(s: Seq<char>) -> Seq<char> {
    spaced(words(s))
}

/// Whether `c` is Han, kana or hangul.
pub fn is_cjk(ch: char) -> (result: bool)
    ensures
        result == cjk(ch),
{
    let code: u32 = ch as u32;
    (0x3400 <= code && code <= 0x4DBF) || (0x4E00 <= code && code <= 0x9FFF) || (0xF900 <= code
        && code <= 0xFAFF) || (0x3040 <= code && code <= 0x309F) || (0x30A0 <= code && code
        <= 0x30FF) || (0xAC00 <= code && code <= 0xD7AF)
}

/// Whether `c` is CJK punctuation.
pub fn is_cjk_punctuation(ch: char) -> (result: bool)
    ensures
        result == cjk_punctuation(ch),
{
    let code: u32 = ch as u32;
    0x3000 <= code && code <= 0x303F
}

/// Whether a space between two characters is dropped because both are CJK; at an end of the
/// text there is no such character.
pub fn should_drop_inter_cjk_space(previous: Option<char>, next: Option<char>) -> (drop: bool)
    ensures
        drop == match (previous, next) {
            (Some(previous), Some(next)) => (cjk(previous) || cjk_punctuation(previous)) && (cjk(
                next,
            ) || cjk_punctuation(next)),
            _ => false,
        },
{
    match (previous, next) {
        (Some(previous), Some(next)) => (is_cjk(previous) || is_cjk_punctuation(previous)) && (
        is_cjk(next) || is_cjk_punctuation(next)),
        _ => false,
    }
}

/// No word is empty, or has whitespace in it.
proof fn lemma_words_are_inked(s: Seq<char>)
    ensures
        forall|i: int|
            0 <= i < words(s).len() ==> (#[trigger] words(s)[i]).len() > 0 && all_inked(
                words(s)[i],
            ),
        s.len() > 0 && !is_white(s.last()) ==> words(s).len() > 0 && words(s).last().last()
            == s.last(),
    decreases s.len(),
{
    if s.len() > 0 {
        let before = words(s.drop_last());
        lemma_words_are_inked(s.drop_last());
        let after = words(s);
        if !is_white(s.last()) {
            assert forall|i: int| 0 <= i < after.len() implies (#[trigger] after[i]).len() > 0
                && all_inked(after[i]) by {
                if i < after.len() - 1 {
                    assert(after[i] == before[i]);
                } else if s.len() == 1 || is_white(s[s.len() - 2]) || before.len() == 0 {
                    assert(after[i] == seq![s.last()]);
                } else {
                    assert(after[i] == before.last().push(s.last()));
                    assert(all_inked(before.last()));
                }
            }
        }
    }
}

/// Whether there is no whitespace in a text.
pub open spec fn all_inked(s: Seq<char>) -> bool {
    forall|i: int| 0 <= i < s.len() ==> !is_white(#[trigger] s[i])
}

/// The characters of a text that are not whitespace.
pub open spec fn ink(s: Seq<char>) -> Seq<char>
    decreases s.len(),
{
    if s.len() == 0 {
        Seq::empty()
    } else if is_white(s.last()) {
        ink(s.drop_last())
    } else {
        ink(s.drop_last()).push(s.last())
    }
}

proof fn lemma_ink_add(a: Seq<char>, b: Seq<char>)
    ensures
        ink(a + b) == ink(a) + ink(b),
    decreases b.len(),
{
    if b.len() == 0 {
        assert(a + b == a);
        assert(ink(a) + ink(b) == ink(a));
    } else {
        lemma_ink_add(a, b.drop_last());
        assert((a + b).drop_last() == a + b.drop_last());
        assert((a + b).last() == b.last());
        if !is_white(b.last()) {
            assert(ink(a) + ink(b.drop_last()).push(b.last()) == (ink(a) + ink(b.drop_last())).push(
                b.last(),
            ));
        }
    }
}

proof fn lemma_gap_has_no_ink(a: Seq<char>, b: Seq<char>)
    ensures
        ink(gap(a, b)) == Seq::<char>::empty(),
{
    reveal_with_fuel(ink, 2);
    if !closes_up(a.last(), b[0]) {
        assert(gap(a, b).drop_last() == Seq::<char>::empty());
    }
}

/// Adding a word adds its ink.
proof fn lemma_spaced_push(ws: Seq<Seq<char>>, word: Seq<char>)
    ensures
        ink(spaced(ws.push(word))) == ink(spaced(ws)) + ink(word),
{
    let all = ws.push(word);
    assert(all.drop_last() == ws);
    if ws.len() == 0 {
        assert(spaced(all) == word);
        assert(ink(spaced(ws)) + ink(word) == ink(word));
    } else {
        let between = gap(all[all.len() - 2], word);
        lemma_ink_add(spaced(ws) + between, word);
        lemma_ink_add(spaced(ws), between);
        lemma_gap_has_no_ink(all[all.len() - 2], word);
        assert(ink(spaced(ws)) + Seq::<char>::empty() == ink(spaced(ws)));
    }
}

/// A character more at the end of the last word is one more at the end of the text.
proof fn lemma_spaced_extend(ws: Seq<Seq<char>>, c: char)
    requires
        ws.len() > 0,
        ws.last().len() > 0,
    ensures
        spaced(ws.update(ws.len() - 1, ws.last().push(c))) == spaced(ws).push(c),
{
    let longer = ws.update(ws.len() - 1, ws.last().push(c));
    assert(longer.drop_last() == ws.drop_last());
    if ws.len() > 1 {
        assert(longer[longer.len() - 2] == ws[ws.len() - 2]);
        assert(longer.last()[0] == ws.last()[0]);
        let head = spaced(ws.drop_last()) + gap(ws[ws.len() - 2], ws.last());
        assert(head + ws.last().push(c) == (head + ws.last()).push(c));
    }
}

/// Normalizing keeps every character that is not whitespace, in order.
pub proof fn law_normalizing_keeps_the_ink(s: Seq<char>)
    ensures
        ink(normalized(s)) == ink(s),
    decreases s.len(),
{
    if s.len() > 0 {
        let before = words(s.drop_last());
        law_normalizing_keeps_the_ink(s.drop_last());
        lemma_words_are_inked(s.drop_last());
        if !is_white(s.last()) {
            if s.len() == 1 || is_white(s[s.len() - 2]) || before.len() == 0 {
                lemma_spaced_push(before, seq![s.last()]);
                reveal_with_fuel(ink, 2);
                assert(seq![s.last()].drop_last() == Seq::<char>::empty());
                assert(ink(seq![s.last()]) == seq![s.last()]);
                assert(ink(spaced(before)) + seq![s.last()] == ink(spaced(before)).push(s.last()));
            } else {
                assert(before.last().len() > 0);
                lemma_spaced_extend(before, s.last());
                assert(spaced(before).push(s.last()).drop_last() == spaced(before));
            }
        }
    }
}

/// A text as it is shown ends as its last word does, and is empty where there is no word.
proof fn lemma_shown_ends(s: Seq<char>)
    ensures
        words(s).len() == 0 ==> normalized(s).len() == 0,
        words(s).len() > 0 ==> normalized(s).len() > 0 && normalized(s).last()
            == words(s).last().last() && !is_white(normalized(s).last()),
{
    lemma_words_are_inked(s);
    if words(s).len() > 0 {
        assert(all_inked(words(s).last()));
    }
}

/// A text that is shown as it is still is with a character more at the end.
proof fn lemma_shown_push(t: Seq<char>, c: char)
    requires
        normalized(t) == t,
        !is_white(c),
        t.len() > 0,
    ensures
        normalized(t.push(c)) == t.push(c),
{
    lemma_shown_ends(t);
    lemma_words_are_inked(t);
    assert(t.push(c).drop_last() == t);
    assert(t.push(c)[t.push(c).len() - 2] == t.last());
    lemma_spaced_extend(words(t), c);
}

/// A text that is shown as it is still is with a space and a character more at the end, where
/// the space does not close up.
proof fn lemma_shown_push_apart(t: Seq<char>, c: char)
    requires
        normalized(t) == t,
        !is_white(c),
        t.len() > 0,
        !closes_up(t.last(), c),
    ensures
        normalized(t.push(' ').push(c)) == t.push(' ').push(c),
{
    lemma_shown_ends(t);
    let apart = t.push(' ');
    assert(apart.drop_last() == t);
    assert(words(apart) == words(t));
    assert(apart.push(c).drop_last() == apart);
    assert(apart.push(c)[apart.push(c).len() - 2] == ' ');
    let after = words(apart.push(c));
    assert(after == words(t).push(seq![c]));
    assert(after.drop_last() == words(t));
    assert(after[after.len() - 2] == words(t).last());
    assert(spaced(after) == t + seq![' '] + seq![c]);
}

/// Normalizing a text that is already as it is shown changes nothing.
pub proof fn law_normalizing_is_idempotent(s: Seq<char>)
    ensures
        normalized(normalized(s)) == normalized(s),
    decreases s.len(),
{
    if s.len() > 0 {
        let before = words(s.drop_last());
        let t = normalized(s.drop_last());
        let c = s.last();
        law_normalizing_is_idempotent(s.drop_last());
        lemma_shown_ends(s.drop_last());
        lemma_words_are_inked(s.drop_last());
        if !is_white(c) {
            if before.len() == 0 {
                assert(words(s) == before.push(seq![c]));
                assert(normalized(s) == seq![c]);
                assert(seq![c].drop_last() == Seq::<char>::empty());
                reveal_with_fuel(words, 2);
                assert(words(seq![c]) == seq![seq![c]]);
            } else if s.len() == 1 || is_white(s[s.len() - 2]) {
                let after = before.push(seq![c]);
                assert(after.drop_last() == before);
                assert(after[after.len() - 2] == before.last());
                if closes_up(t.last(), c) {
                    assert(normalized(s) == t.push(c));
                    lemma_shown_push(t, c);
                } else {
                    assert(normalized(s) == t.push(' ').push(c));
                    lemma_shown_push_apart(t, c);
                }
            } else {
                lemma_spaced_extend(before, c);
                lemma_shown_push(t, c);
            }
        }
    }
}

/// A transcript text as it is shown.
pub fn normalize_transcript_text(input: &str) -> (text: String)
    ensures
        text@ == normalized(input@),
{
    let chars = chars_of(input);
    let mut text: String = String::new();
    let mut previous: Option<char> = None;
    let mut behind_space = false;
    let mut i: usize = 0;
    assert(chars@.take(0) == Seq::<char>::empty());
    while i < chars.len()
        invariant
            i <= chars@.len(),
            text@ == spaced(words(chars@.take(i as int))),
            match previous {
                Some(c) => words(chars@.take(i as int)).len() > 0 && words(
                    chars@.take(i as int),
                ).last().last() == c,
                None => words(chars@.take(i as int)).len() == 0,
            },
            i > 0 ==> behind_space == is_white(chars@[i - 1]),
        decreases chars@.len() - i,
    {
        let c: char = chars[i];
        let ghost read = chars@.take(i + 1);
        let ghost before = words(chars@.take(i as int));
        proof {
            assert(read.drop_last() == chars@.take(i as int));
            assert(read.last() == c);
            assert(i > 0 ==> read[read.len() - 2] == chars@[i - 1]);
            lemma_words_are_inked(chars@.take(i as int));
            lemma_words_are_inked(read);
        }
        if c.is_whitespace() {
            behind_space = true;
        } else {
            match previous {
                Some(last) => {
                    assert(i > 0) by {
                        if i == 0 {
                            assert(chars@.take(0) == Seq::<char>::empty());
                        }
                    }
                    if behind_space {
                        proof {
                            let after = words(read);
                            assert(after == before.push(seq![c]));
                            assert(after.drop_last() == before);
                            assert(after[after.len() - 2] == before.last());
                            assert(after.last()[0] == c);
                        }
                        if !should_drop_inter_cjk_space(Some(last), Some(c)) && !is_cjk_punctuation(
                            c,
                        ) {
                            text.push(' ');
                        }
                    } else {
                        proof {
                            lemma_spaced_extend(before, c);
                        }
                    }
                },
                None => {
                    assert(words(read) == before.push(seq![c]));
                    assert(words(read)[0] == seq![c]);
                },
            }
            let ghost so_far = text@;
            text.push(c);
            assert(text@ == so_far + seq![c]);
            assert(text@ == spaced(words(read)));
            previous = Some(c);
            behind_space = false;
        }
        i += 1;
    }
    assert(chars@.take(chars@.len() as int) == chars@);
    text
}

/// Whether everything in a text is whitespace.
pub open spec fn all_white(s: Seq<char>) -> bool {
    forall|i: int| 0 <= i < s.len() ==> is_white(#[trigger] s[i])
}

proof fn lemma_words_before_whitespace(a: Seq<char>, blank: Seq<char>)
    requires
        all_white(blank),
    ensures
        words(a + blank) == words(a),
    decreases blank.len(),
{
    if blank.len() == 0 {
        assert(a + blank == a);
    } else {
        assert((a + blank).drop_last() == a + blank.drop_last());
        assert((a + blank).last() == blank.last());
        assert(is_white(blank[blank.len() - 1]));
        assert forall|i: int| 0 <= i < blank.drop_last().len() implies is_white(
            #[trigger] blank.drop_last()[i],
        ) by {
            assert(is_white(blank[i]));
        }
        lemma_words_before_whitespace(a, blank.drop_last());
    }
}

proof fn lemma_words_behind_whitespace(head: Seq<char>, b: Seq<char>)
    requires
        head.len() > 0 ==> is_white(head.last()),
    ensures
        words(head + b) == words(head) + words(b),
    decreases b.len(),
{
    let whole = head + b;
    if b.len() == 0 {
        assert(whole == head);
        assert(words(head) + words(b) == words(head));
    } else {
        lemma_words_behind_whitespace(head, b.drop_last());
        lemma_words_are_inked(b.drop_last());
        assert(whole.drop_last() == head + b.drop_last());
        assert(whole.last() == b.last());
        if !is_white(b.last()) {
            if b.len() > 1 {
                assert(whole[whole.len() - 2] == b[b.len() - 2]);
                assert(b.drop_last().last() == b[b.len() - 2]);
            } else {
                assert(b.drop_last() == Seq::<char>::empty());
                if head.len() > 0 {
                    assert(whole[whole.len() - 2] == head.last());
                }
            }
        }
        assert(words(whole) == words(head) + words(b));
    }
}

proof fn lemma_spaced_add(a: Seq<Seq<char>>, b: Seq<Seq<char>>)
    requires
        a.len() > 0,
        b.len() > 0,
        b[0].len() > 0,
    ensures
        spaced(a + b) == spaced(a) + gap(a.last(), b[0]) + spaced(b),
    decreases b.len(),
{
    let all = a + b;
    assert(all.drop_last() == a + b.drop_last());
    assert(all.last() == b.last());
    if b.len() == 1 {
        assert(all.drop_last() == a);
        assert(all[all.len() - 2] == a.last());
    } else {
        lemma_spaced_add(a, b.drop_last());
        assert(all[all.len() - 2] == b[b.len() - 2]);
        assert(b.drop_last()[0] == b[0]);
        let between = gap(b[b.len() - 2], b.last());
        let front = spaced(a) + gap(a.last(), b[0]);
        assert(front + spaced(b.drop_last()) + between + b.last() == front + (spaced(b.drop_last())
            + between + b.last()));
    }
}

proof fn lemma_first_word(s: Seq<char>)
    requires
        s.len() > 0,
        !is_white(s[0]),
    ensures
        words(s).len() > 0,
        words(s)[0].len() > 0,
        words(s)[0][0] == s[0],
    decreases s.len(),
{
    if s.len() == 1 {
        assert(s.drop_last() == Seq::<char>::empty());
        assert(words(s) == Seq::<Seq<char>>::empty().push(seq![s.last()]));
    } else {
        assert(s.drop_last()[0] == s[0]);
        lemma_first_word(s.drop_last());
    }
}

/// Where whitespace parts two texts, there is one space between them as they are shown, unless
/// both sides are CJK letters or punctuation, or CJK punctuation follows: then there is none.
pub proof fn law_whitespace_is_one_space_or_none(a: Seq<char>, blank: Seq<char>, b: Seq<char>)
    requires
        a.len() > 0,
        !is_white(a.last()),
        blank.len() > 0,
        all_white(blank),
        b.len() > 0,
        !is_white(b[0]),
    ensures
        ({
            let before = a.last();
            let next = b[0];
            let closes = {
                ||| (cjk(before) || cjk_punctuation(before)) && (cjk(next) || cjk_punctuation(next))
                ||| cjk_punctuation(next)
            };
            normalized(a + blank + b) == if closes {
                normalized(a) + normalized(b)
            } else {
                normalized(a) + seq![' '] + normalized(b)
            }
        }),
{
    lemma_words_before_whitespace(a, blank);
    assert((a + blank).last() == blank.last());
    assert(is_white(blank[blank.len() - 1]));
    lemma_words_behind_whitespace(a + blank, b);
    lemma_words_are_inked(a);
    lemma_first_word(b);
    lemma_spaced_add(words(a), words(b));
    if closes_up(a.last(), b[0]) {
        assert(normalized(a) + Seq::<char>::empty() + normalized(b) == normalized(a) + normalized(
            b,
        ));
    }
}

/// Whitespace at the ends of a text is not shown.
pub proof fn law_whitespace_at_the_ends_is_dropped(front: Seq<char>, s: Seq<char>, back: Seq<char>)
    requires
        all_white(front),
        all_white(back),
    ensures
        normalized(front + s + back) == normalized(s),
{
    lemma_words_before_whitespace(front + s, back);
    if front.len() > 0 {
        assert(is_white(front[front.len() - 1]));
    }
    lemma_words_behind_whitespace(front, s);
    lemma_words_before_whitespace(Seq::empty(), front);
    assert(Seq::<char>::empty() + front == front);
    assert(words(Seq::<char>::empty()) == Seq::<Seq<char>>::empty());
    assert(words(front) + words(s) == words(s));
}

/// A text without whitespace is shown as it is.
pub proof fn law_inked_texts_are_shown_as_they_are(s: Seq<char>)
    requires
        all_inked(s),
    ensures
        normalized(s) == s,
    decreases s.len(),
{
    if s.len() > 0 {
        let before = s.drop_last();
        assert forall|i: int| 0 <= i < before.len() implies !is_white(#[trigger] before[i]) by {
            assert(before[i] == s[i]);
        }
        law_inked_texts_are_shown_as_they_are(before);
        assert(!is_white(s[s.len() - 1]));
        assert(before.push(s.last()) == s);
        if before.len() > 0 {
            lemma_shown_push(before, s.last());
        } else {
            assert(before == Seq::<char>::empty());
            assert(words(s) == Seq::<Seq<char>>::empty().push(seq![s.last()]));
            assert(normalized(s) == s);
        }
    }
}

/// What is CJK: ideographs, kana and hangul are letters, and the signs of their own block
/// punctuation; nothing below that block is either, and nothing is both.
pub proof fn law_scripts_are_told_apart(c: char)
    ensures
        (c as u32) < 0x3000 ==> !cjk(c) && !cjk_punctuation(c),
        0x3000 <= c as u32 <= 0x303F ==> cjk_punctuation(c) && !cjk(c),
        0x3040 <= c as u32 <= 0x30FF ==> cjk(c),
        0x3400 <= c as u32 <= 0x4DBF ==> cjk(c),
        0x4E00 <= c as u32 <= 0x9FFF ==> cjk(c),
        0xAC00 <= c as u32 <= 0xD7AF ==> cjk(c),
        0xF900 <= c as u32 <= 0xFAFF ==> cjk(c),
        0x3100 <= c as u32 <= 0x33FF || 0x4DC0 <= c as u32 <= 0x4DFF || 0xA000 <= c as u32
            <= 0xABFF || 0xD7B0 <= c as u32 <= 0xF8FF || 0xFB00 <= c as u32 ==> !cjk(c),
        0x3040 <= c as u32 ==> !cjk_punctuation(c),
{
}

/// A normalized text has every character of the text that is not whitespace, in order, and is
/// normalized itself. A space is dropped exactly where both sides of it are CJK.
pub proof fn law_normalized_texts_keep_the_ink(
    input: &str,
    text: String,
    previous: Option<char>,
    next: Option<char>,
    dropped: bool,
)
    ensures
        call_ensures(normalize_transcript_text, (input,), text) ==> {
            &&& ink(text@) == ink(input@)
            &&& normalized(text@) == text@
        },
        call_ensures(should_drop_inter_cjk_space, (previous, next), dropped) ==> (dropped <==> {
            &&& previous matches Some(before)
            &&& next matches Some(after)
            &&& cjk(before) || cjk_punctuation(before)
            &&& cjk(after) || cjk_punctuation(after)
        }),
{
    law_normalizing_keeps_the_ink(input@);
    law_normalizing_is_idempotent(input@);
}

} // verus!
