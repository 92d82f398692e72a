//! Text primitives shared by every module: trimming, prefixes, joining and number rendering.

use vstd::prelude::*;
use vstd::string::*;

verus! {

/// The Unicode property `White_Space`, by code point.
pub open spec fn is_white(c: char) -> bool {
    let code = c as u32;
    ||| 0x09 <= code <= 0x0D
    ||| code == 0x20
    ||| code == 0x85
    ||| code == 0xA0
    ||| code == 0x1680
    ||| 0x2000 <= code <= 0x200A
    ||| code == 0x2028
    ||| code == 0x2029
    ||| code == 0x202F
    ||| code == 0x205F
    ||| code == 0x3000
}

/// Trusted: `char::is_whitespace` holds of the characters with the Unicode property
/// `White_Space`, and of no others.
pub assume_specification[ char::is_whitespace ](c: char) -> (white: bool)
    ensures
        white == is_white(c),
;

/// Trusted: `String::push` appends one character.
pub assume_specification[ String::push ](text: &mut String, c: char)
    ensures
        final(text)@ == old(text)@.push(c),
;

/// `s` without its leading whitespace.
pub open spec fn trim_start(s: Seq<char>) -> Seq<char>
    decreases s.len(),
{
    if s.len() > 0 && is_white(s[0]) {
        trim_start(s.drop_first())
    } else {
        s
    }
}

/// `s` without its trailing whitespace.
pub open spec fn trim_end(s: Seq<char>) -> Seq<char>
    decreases s.len(),
{
    if s.len() > 0 && is_white(s.last()) {
        trim_end(s.drop_last())
    } else {
        s
    }
}

/// `s` without leading and trailing whitespace.
pub open spec fn trimmed(s: Seq<char>) -> Seq<char> {
    trim_end(trim_start(s))
}

/// The characters of `text`, in order.
pub fn chars_of(text: &str) -> (chars: Vec<char>)
    ensures
        chars@ == text@,
{
    let mut chars: Vec<char> = Vec::new();
    for c in it: text.chars()
        invariant
            it.seq() == text@,
            chars@ == text@.take(it.index()),
    {
        chars.push(c);
    }
    chars
}

/// The characters `chars[from..to]` as a string.
pub fn text_of(chars: &Vec<char>, from: usize, to: usize) -> (text: String)
    requires
        from <= to <= chars@.len(),
    ensures
        text@ == chars@.subrange(from as int, to as int),
{
    let mut text: String = String::new();
    let mut i: usize = from;
    while i < to
        invariant
            from <= i <= to <= chars@.len(),
            text@ == chars@.subrange(from as int, i as int),
        decreases to - i,
    {
        text.push(chars[i]);
        i += 1;
    }
    text
}

proof fn lemma_trim_start_at(s: Seq<char>, k: int)
    requires
        0 <= k <= s.len(),
        forall|i: int| 0 <= i < k ==> is_white(#[trigger] s[i]),
        k < s.len() ==> !is_white(s[k]),
    ensures
        trim_start(s) == s.skip(k),
    decreases s.len(),
{
    if k > 0 {
        let rest = s.drop_first();
        assert(forall|i: int| 0 <= i < k - 1 ==> rest[i] == s[i + 1]);
        lemma_trim_start_at(rest, k - 1);
        assert(rest.skip(k - 1) == s.skip(k));
    } else {
        assert(s.skip(0) == s);
    }
}

proof fn lemma_trim_end_at(s: Seq<char>, k: int)
    requires
        0 <= k <= s.len(),
        forall|i: int| k <= i < s.len() ==> is_white(#[trigger] s[i]),
        k > 0 ==> !is_white(s[k - 1]),
    ensures
        trim_end(s) == s.take(k),
    decreases s.len(),
{
    if k < s.len() {
        let rest = s.drop_last();
        lemma_trim_end_at(rest, k);
        assert(rest.take(k) == s.take(k));
    } else {
        assert(s.take(k) == s);
    }
}

/// `text` without leading and trailing whitespace.
pub fn trim_text(text: &str) -> (result: String)
    ensures
        result@ == trimmed(text@),
{
    let chars = chars_of(text);
    let mut start: usize = 0;
    while start < chars.len() && chars[start].is_whitespace()
        invariant
            start <= chars@.len(),
            forall|i: int| 0 <= i < start ==> is_white(#[trigger] chars@[i]),
        ensures
            start <= chars@.len(),
            forall|i: int| 0 <= i < start ==> is_white(#[trigger] chars@[i]),
            start < chars@.len() ==> !is_white(chars@[start as int]),
        decreases chars@.len() - start,
    {
        start += 1;
    }
    proof {
        lemma_trim_start_at(chars@, start as int);
    }
    let ghost tail = chars@.skip(start as int);
    let mut end: usize = chars.len();
    while end > start && chars[end - 1].is_whitespace()
        invariant
            start <= end <= chars@.len(),
            forall|i: int| end <= i < chars@.len() ==> is_white(#[trigger] chars@[i]),
        ensures
            start <= end <= chars@.len(),
            forall|i: int| end <= i < chars@.len() ==> is_white(#[trigger] chars@[i]),
            end > start ==> !is_white(chars@[end - 1]),
        decreases end,
    {
        end -= 1;
    }
    proof {
        assert forall|i: int| end - start <= i < tail.len() implies is_white(#[trigger] tail[i]) by {
            assert(tail[i] == chars@[i + start]);
        }
        lemma_trim_end_at(tail, end - start);
        assert(tail.take(end - start) == chars@.subrange(start as int, end as int));
    }
    text_of(&chars, start, end)
}

/// A trimmed text neither begins nor ends with whitespace.
pub proof fn lemma_trimmed_ends(s: Seq<char>)
    ensures
        trimmed(s).len() > 0 ==> !is_white(trimmed(s)[0]) && !is_white(trimmed(s).last()),
{
    lemma_trim_start_begins(s);
    lemma_trim_end_ends(trim_start(s));
}

proof fn lemma_trim_start_begins(s: Seq<char>)
    ensures
        trim_start(s).len() > 0 ==> !is_white(trim_start(s)[0]),
    decreases s.len(),
{
    if s.len() > 0 && is_white(s[0]) {
        lemma_trim_start_begins(s.drop_first());
    }
}

proof fn lemma_trim_end_ends(s: Seq<char>)
    ensures
        trim_end(s).len() > 0 ==> trim_end(s)[0] == s[0] && !is_white(trim_end(s).last()),
        trim_end(s).len() <= s.len(),
    decreases s.len(),
{
    if s.len() > 0 && is_white(s.last()) {
        lemma_trim_end_ends(s.drop_last());
    }
}

/// A text that neither begins nor ends with whitespace is trimmed already.
pub proof fn lemma_trimmed_fixed(s: Seq<char>)
    requires
        s.len() > 0 ==> !is_white(s[0]) && !is_white(s.last()),
    ensures
        trimmed(s) == s,
{
}

/// The model of "trimmed, or nothing when blank".
pub open spec fn nonblank(s: Seq<char>) -> Option<Seq<char>> {
    if trimmed(s).len() == 0 {
        None
    } else {
        Some(trimmed(s))
    }
}

/// The view of an optional string.
pub open spec fn view_opt(text: Option<String>) -> Option<Seq<char>> {
    match text {
        Some(value) => Some(value@),
        None => None,
    }
}

/// The view of an optional string slice.
pub open spec fn view_opt_str(text: Option<&str>) -> Option<Seq<char>> {
    match text {
        Some(value) => Some(value@),
        None => None,
    }
}

/// The views of a sequence of strings.
pub open spec fn views(texts: Seq<String>) -> Seq<Seq<char>> {
    texts.map_values(|text: String| text@)
}

/// `text` trimmed, or `None` when nothing but whitespace is in it.
pub fn nonblank_text(text: &str) -> (result: Option<String>)
    ensures
        view_opt(result) == nonblank(text@),
{
    let result = trim_text(text);
    if result.as_str().is_empty() {
        None
    } else {
        Some(result)
    }
}

/// Whether two texts hold the same characters.
pub fn same_text(a: &str, b: &str) -> (same: bool)
    ensures
        same == (a@ == b@),
{
    let left: String = a.to_owned();
    let right: String = b.to_owned();
    left == right
}

/// Whether `text` begins with `prefix`.
pub fn has_prefix(text: &str, prefix: &str) -> (result: bool)
    ensures
        result == prefix@.is_prefix_of(text@),
{
    let chars = chars_of(text);
    let wanted = chars_of(prefix);
    if wanted.len() > chars.len() {
        return false;
    }
    let mut i: usize = 0;
    while i < wanted.len()
        invariant
            i <= wanted@.len() <= chars@.len(),
            chars@ == text@,
            wanted@ == prefix@,
            forall|j: int| 0 <= j < i ==> wanted@[j] == chars@[j],
        decreases wanted@.len() - i,
    {
        if wanted[i] != chars[i] {
            assert(prefix@[i as int] != text@.take(prefix@.len() as int)[i as int]);
            return false;
        }
        i += 1;
    }
    assert(prefix@ == text@.take(prefix@.len() as int));
    true
}

/// Whether `part` stands in `whole` at position `at`.
pub open spec fn stands_at(whole: Seq<char>, part: Seq<char>, at: int) -> bool {
    &&& 0 <= at
    &&& at + part.len() <= whole.len()
    &&& whole.subrange(at, at + part.len()) == part
}

/// Whether `part` stands in `whole` somewhere.
pub open spec fn occurs_in(part: Seq<char>, whole: Seq<char>) -> bool {
    exists|at: int| stands_at(whole, part, at)
}

fn occurs_at(chars: &Vec<char>, wanted: &Vec<char>, at: usize) -> (result: bool)
    requires
        at + wanted@.len() <= chars@.len(),
    ensures
        result == stands_at(chars@, wanted@, at as int),
{
    let mut i: usize = 0;
    while i < wanted.len()
        invariant
            i <= wanted.len(),
            at + wanted.len() <= chars.len(),
            forall|j: int| 0 <= j < i ==> wanted@[j] == chars@[at + j],
        decreases wanted@.len() - i,
    {
        if wanted[i] != chars[at + i] {
            assert(chars@.subrange(at as int, at + wanted@.len())[i as int] != wanted@[i as int]);
            return false;
        }
        i += 1;
    }
    assert(chars@.subrange(at as int, at + wanted@.len()) == wanted@);
    true
}

/// Whether `part` stands in `whole` somewhere.
pub fn has_part(whole: &str, part: &str) -> (result: bool)
    ensures
        result == occurs_in(part@, whole@),
{
    let chars = chars_of(whole);
    let wanted = chars_of(part);
    if wanted.len() > chars.len() {
        return false;
    }
    let last: usize = chars.len() - wanted.len();
    let mut at: usize = 0;
    loop
        invariant
            at <= last,
            last == chars@.len() - wanted@.len(),
            chars@ == whole@,
            wanted@ == part@,
            forall|k: int| 0 <= k < at ==> !stands_at(chars@, wanted@, k),
        decreases last - at,
    {
        if occurs_at(&chars, &wanted, at) {
            return true;
        }
        if at == last {
            assert forall|k: int| !stands_at(whole@, part@, k) by {}
            return false;
        }
        at += 1;
    }
}

/// `parts` with `separator` between neighbours.
pub open spec fn joined(parts: Seq<Seq<char>>, separator: Seq<char>) -> Seq<char>
    decreases parts.len(),
{
    if parts.len() == 0 {
        Seq::empty()
    } else if parts.len() == 1 {
        parts[0]
    } else {
        joined(parts.drop_last(), separator) + separator + parts.last()
    }
}

/// The texts with `separator` between neighbours.
pub fn join_texts(parts: &Vec<String>, separator: &str) -> (result: String)
    ensures
        result@ == joined(views(parts@), separator@),
{
    let mut result: String = String::new();
    let mut i: usize = 0;
    while i < parts.len()
        invariant
            i <= parts@.len(),
            result@ == joined(views(parts@).take(i as int), separator@),
        decreases parts@.len() - i,
    {
        let ghost before = views(parts@).take(i as int);
        let ghost after = views(parts@).take(i + 1);
        assert(after.drop_last() == before);
        assert(after.last() == parts@[i as int]@);
        if i > 0 {
            result.append(separator);
            result.append(parts[i].as_str());
        } else {
            result.append(parts[i].as_str());
            assert(result@ == after[0]);
        }
        i += 1;
    }
    assert(views(parts@).take(parts@.len() as int) == views(parts@));
    result
}

/// `s` with every space replaced by a hyphen.
pub open spec fn hyphenated(s: Seq<char>) -> Seq<char> {
    s.map_values(|c: char| if c == ' ' { '-' } else { c })
}

/// `text` with every space replaced by a hyphen.
pub fn hyphenate(text: &str) -> (result: String)
    ensures
        result@ == hyphenated(text@),
{
    let chars = chars_of(text);
    let mut result: String = String::new();
    let mut i: usize = 0;
    while i < chars.len()
        invariant
            i <= chars@.len(),
            chars@ == text@,
            result@ == hyphenated(text@.take(i as int)),
        decreases chars@.len() - i,
    {
        assert(hyphenated(text@.take(i + 1)) == hyphenated(text@.take(i as int)).push(
            if chars@[i as int] == ' ' { '-' } else { chars@[i as int] },
        ));
        if chars[i] == ' ' {
            result.push('-');
        } else {
            result.push(chars[i]);
        }
        i += 1;
    }
    assert(text@.take(chars@.len() as int) == text@);
    result
}

/// The decimal digit of `d`, for `d < 10`.
pub open spec fn digit(d: nat) -> char {
    (48 + d) as char
}

/// `n` in decimal, without leading zeros.
pub open spec fn decimal(n: nat) -> Seq<char>
    decreases n,
{
    if n < 10 {
        seq![digit(n)]
    } else {
        decimal(n / 10).push(digit(n % 10))
    }
}

/// `s` with zeros put in front until it is `width` characters long.
pub open spec fn zero_padded(s: Seq<char>, width: nat) -> Seq<char>
    decreases width - s.len(),
{
    if s.len() >= width {
        s
    } else {
        zero_padded(seq!['0'] + s, width)
    }
}

fn digit_char(d: u8) -> (c: char)
    requires
        d < 10,
    ensures
        c == digit(d as nat),
{
    (48 + d) as char
}

/// `n` in decimal.
pub fn decimal_text(n: u128) -> (result: String)
    ensures
        result@ == decimal(n as nat),
    decreases n,
{
    if n < 10 {
        let mut result: String = String::new();
        result.push(digit_char(n as u8));
        assert(result@ == seq![digit(n as nat)]);
        result
    } else {
        let mut result = decimal_text(n / 10);
        result.push(digit_char((n % 10) as u8));
        result
    }
}

/// `n` in decimal, with leading zeros up to `width` characters.
pub fn padded_decimal_text(n: u128, width: usize) -> (result: String)
    ensures
        result@ == zero_padded(decimal(n as nat), width as nat),
{
    let digits = decimal_text(n);
    let mut count: usize = digits.as_str().unicode_len();
    let mut result: String = digits;
    while count < width
        invariant
            count == result@.len(),
            zero_padded(result@, width as nat) == zero_padded(decimal(n as nat), width as nat),
        decreases width - count,
    {
        let mut longer: String = String::new();
        longer.push('0');
        longer.append(result.as_str());
        assert(longer@ == seq!['0'] + result@);
        result = longer;
        count += 1;
    }
    result
}

/// The number that decimal digits spell.
pub open spec fn spelled(digits: Seq<char>) -> int
    decreases digits.len(),
{
    if digits.len() == 0 {
        0
    } else {
        10 * spelled(digits.drop_last()) + (digits.last() as int - 48)
    }
}

/// The decimal digits of a number spell it, whatever zeros stand before them.
pub proof fn law_decimal_spells_the_number(n: nat, width: nat)
    ensures
        spelled(decimal(n)) == n,
        spelled(zero_padded(decimal(n), width)) == n,
{
    lemma_decimal_spells(n);
    lemma_padding_spells(decimal(n), width);
}

proof fn lemma_decimal_spells(n: nat)
    ensures
        spelled(decimal(n)) == n,
        decimal(n).len() > 0,
    decreases n,
{
    reveal_with_fuel(spelled, 2);
    if n < 10 {
        assert(decimal(n).drop_last() == Seq::<char>::empty());
        assert(decimal(n).last() as int == 48 + n);
    } else {
        lemma_decimal_spells(n / 10);
        assert(decimal(n).drop_last() == decimal(n / 10));
        assert(decimal(n).last() as int == 48 + n % 10);
    }
}

proof fn lemma_leading_zero_spells(s: Seq<char>)
    ensures
        spelled(seq!['0'] + s) == spelled(s),
    decreases s.len(),
{
    let longer = seq!['0'] + s;
    if s.len() == 0 {
        assert(longer.drop_last() == Seq::<char>::empty());
        assert(longer.last() == '0');
        reveal_with_fuel(spelled, 2);
    } else {
        lemma_leading_zero_spells(s.drop_last());
        assert(longer.drop_last() == seq!['0'] + s.drop_last());
        assert(longer.last() == s.last());
    }
}

proof fn lemma_padding_spells(s: Seq<char>, width: nat)
    ensures
        spelled(zero_padded(s, width)) == spelled(s),
    decreases width - s.len(),
{
    if s.len() < width {
        lemma_leading_zero_spells(s);
        lemma_padding_spells(seq!['0'] + s, width);
    }
}

/// Trimming takes whitespace from the two ends, all of it, and nothing else.
pub proof fn law_trimming_takes_the_whitespace_at_the_ends(s: Seq<char>)
    ensures
        exists|from: int, to: int|
            {
                &&& 0 <= from <= to <= s.len()
                &&& trimmed(s) == #[trigger] s.subrange(from, to)
                &&& forall|i: int| 0 <= i < from ==> is_white(#[trigger] s[i])
                &&& forall|i: int| to <= i < s.len() ==> is_white(#[trigger] s[i])
            },
        trimmed(s).len() > 0 ==> !is_white(trimmed(s)[0]) && !is_white(trimmed(s).last()),
{
    lemma_trimmed_ends(s);
    let from = lemma_trim_start_place(s);
    let tail = s.skip(from);
    let end = lemma_trim_end_place(tail);
    assert(tail.take(end) == s.subrange(from, from + end));
    assert forall|i: int| from + end <= i < s.len() implies is_white(#[trigger] s[i]) by {
        assert(tail[i - from] == s[i]);
    }
}

proof fn lemma_trim_start_place(s: Seq<char>) -> (from: int)
    ensures
        0 <= from <= s.len(),
        trim_start(s) == s.skip(from),
        forall|i: int| 0 <= i < from ==> is_white(#[trigger] s[i]),
    decreases s.len(),
{
    if s.len() > 0 && is_white(s[0]) {
        let rest = s.drop_first();
        let from = lemma_trim_start_place(rest);
        assert(rest.skip(from) == s.skip(from + 1));
        assert forall|i: int| 0 <= i < from + 1 implies is_white(#[trigger] s[i]) by {
            if i > 0 {
                assert(rest[i - 1] == s[i]);
            }
        }
        from + 1
    } else {
        assert(s.skip(0) == s);
        0
    }
}

proof fn lemma_trim_end_place(s: Seq<char>) -> (to: int)
    ensures
        0 <= to <= s.len(),
        trim_end(s) == s.take(to),
        forall|i: int| to <= i < s.len() ==> is_white(#[trigger] s[i]),
    decreases s.len(),
{
    if s.len() > 0 && is_white(s.last()) {
        let rest = s.drop_last();
        let to = lemma_trim_end_place(rest);
        assert(rest.take(to) == s.take(to));
        assert forall|i: int| to <= i < s.len() implies is_white(#[trigger] s[i]) by {
            if i < rest.len() {
                assert(rest[i] == s[i]);
            }
        }
        to
    } else {
        assert(s.take(s.len() as int) == s);
        s.len() as int
    }
}

/// A text counts as given exactly when something in it is not whitespace, and then as it is
/// trimmed.
pub proof fn law_blank_texts_are_none(s: Seq<char>)
    ensures
        nonblank(s) is None <==> forall|i: int| 0 <= i < s.len() ==> is_white(#[trigger] s[i]),
        nonblank(s) matches Some(text) ==> text == trimmed(s) && text.len() > 0,
{
    law_trimming_takes_the_whitespace_at_the_ends(s);
    let (from, to) = choose|from: int, to: int|
        {
            &&& 0 <= from <= to <= s.len()
            &&& trimmed(s) == #[trigger] s.subrange(from, to)
            &&& forall|i: int| 0 <= i < from ==> is_white(#[trigger] s[i])
            &&& forall|i: int| to <= i < s.len() ==> is_white(#[trigger] s[i])
        };
    if from < to {
        assert(trimmed(s)[0] == s[from]);
    }
}

/// Texts are joined in order, with the separator between any two and nowhere else.
pub proof fn law_joining_separates_neighbours(
    parts: Seq<Seq<char>>,
    part: Seq<char>,
    separator: Seq<char>,
)
    ensures
        joined(Seq::empty(), separator).len() == 0,
        joined(seq![part], separator) == part,
        parts.len() > 0 ==> joined(parts.push(part), separator) == joined(parts, separator)
            + separator + part,
{
    assert(parts.push(part).drop_last() == parts);
}

/// Hyphenating changes spaces into hyphens, and nothing else.
pub proof fn law_hyphens_replace_spaces(s: Seq<char>, i: int)
    requires
        0 <= i < s.len(),
    ensures
        hyphenated(s).len() == s.len(),
        s[i] == ' ' ==> hyphenated(s)[i] == '-',
        s[i] != ' ' ==> hyphenated(s)[i] == s[i],
{
}

/// Padding puts zeros in front, as many as are missing.
pub proof fn law_padding_puts_zeros_in_front(s: Seq<char>, width: nat)
    ensures
        zero_padded(s, width).len() == if s.len() < width {
            width
        } else {
            s.len()
        },
        s.is_suffix_of(zero_padded(s, width)),
        forall|i: int|
            0 <= i < zero_padded(s, width).len() - s.len() ==> #[trigger] zero_padded(s, width)[i]
                == '0',
    decreases width - s.len(),
{
    let padded = zero_padded(s, width);
    if s.len() < width {
        let longer = seq!['0'] + s;
        law_padding_puts_zeros_in_front(longer, width);
        let tail = padded.subrange(padded.len() - longer.len(), padded.len() as int);
        assert(tail == longer);
        assert(padded.subrange(padded.len() - s.len(), padded.len() as int) == s) by {
            assert(tail.subrange(1, tail.len() as int) == s);
        }
        assert(padded[padded.len() - longer.len()] == longer[0]);
    } else {
        assert(padded.subrange(0, padded.len() as int) == s);
    }
}

/// A number is written in digits, without a zero in front of them.
pub proof fn law_decimals_are_digits(n: nat)
    ensures
        decimal(n).len() > 0,
        forall|i: int| 0 <= i < decimal(n).len() ==> '0' <= #[trigger] decimal(n)[i] <= '9',
        n > 0 ==> decimal(n)[0] != '0',
    decreases n,
{
    if n >= 10 {
        law_decimals_are_digits(n / 10);
    }
}

/// A part occurs in a text exactly where the text is made of what stands before it, the part, and
/// what stands behind it.
pub proof fn law_parts_stand_between_the_rest(before: Seq<char>, part: Seq<char>, behind: Seq<char>)
    ensures
        occurs_in(part, before + part + behind),
{
    let whole = before + part + behind;
    assert(whole.subrange(before.len() as int, (before.len() + part.len()) as int) == part);
    assert(stands_at(whole, part, before.len() as int));
}

/// What is whitespace: among the characters of ASCII the space and the five that move on, and the
/// ideographic space; no visible character of ASCII and no ideograph is.
pub proof fn law_whitespace_is_invisible(c: char)
    ensures
        is_white(' '),
        is_white('\n'),
        is_white('\t'),
        is_white('\r'),
        c as u32 == 0x3000 ==> is_white(c),
        9 <= c as u32 <= 13 ==> is_white(c),
        0x21 <= c as u32 <= 0x7E ==> !is_white(c),
        (c as u32) < 9 ==> !is_white(c),
        0x3001 <= c as u32 ==> !is_white(c),
{
}

} // verus!
