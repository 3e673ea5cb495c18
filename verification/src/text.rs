//! Reading an unsigned decimal number out of a line of text.
//!
//! The grammar is small: surrounding white space is dropped, one leading `+`
//! is allowed, and what is left must be one or more ASCII digits whose value
//! does not exceed a limit that the caller names.

use vstd::prelude::*;

verus! {

/// The characters that Unicode marks as `White_Space`.
pub open spec fn is_whitespace(c: char) -> bool {
    let code = c as u32;
    ||| 0x0009 <= code <= 0x000D
    ||| code == 0x0020
    ||| code == 0x0085
    ||| code == 0x00A0
    ||| code == 0x1680
    ||| 0x2000 <= code <= 0x200A
    ||| code == 0x2028
    ||| code == 0x2029
    ||| code == 0x202F
    ||| code == 0x205F
    ||| code == 0x3000
}

/// `s` without the white space at its start.
pub open spec fn trim_start(s: Seq<char>) -> Seq<char>
    decreases s.len(),
{
    if s.len() > 0 && is_whitespace(s.first()) {
        trim_start(s.drop_first())
    } else {
        s
    }
}

/// `s` without the white space at its end.
pub open spec fn trim_end(s: Seq<char>) -> Seq<char>
    decreases s.len(),
{
    if s.len() > 0 && is_whitespace(s.last()) {
        trim_end(s.drop_last())
    } else {
        s
    }
}

/// `s` without the white space at either end.
pub open spec fn trimmed(s: Seq<char>) -> Seq<char> {
    trim_end(trim_start(s))
}

/// The ASCII digits `0` to `9`.
pub open spec fn is_digit(c: char) -> bool {
    '0' <= c <= '9'
}

/// The number that a digit stands for.
pub open spec fn digit_value(c: char) -> nat
    recommends
        is_digit(c),
{
    (c as u32 - '0' as u32) as nat
}

/// Whether `s` holds digits and nothing else.
pub open spec fn all_digits(s: Seq<char>) -> bool {
    forall|i: int| 0 <= i < s.len() ==> is_digit(#[trigger] s[i])
}

/// The number that a run of digits spells in base ten; the empty run spells 0.
pub open spec fn decimal_value(digits: Seq<char>) -> nat
    decreases digits.len(),
{
    if digits.len() == 0 {
        0
    } else {
        10 * decimal_value(digits.drop_last()) + digit_value(digits.last())
    }
}

/// The digit that stands for a number below ten.
pub open spec fn digit_char(d: nat) -> char
    recommends
        d < 10,
{
    ('0' as u32 + d) as char
}

/// The usual way to write `n` in base ten: digits only, and no zero in front
/// but for 0 itself.
pub open spec fn decimal_digits(n: nat) -> Seq<char>
    decreases n,
{
    if n < 10 {
        seq![digit_char(n)]
    } else {
        decimal_digits(n / 10).push(digit_char(n % 10))
    }
}

/// `s` without one leading `+`, if it has one.
pub open spec fn without_plus(s: Seq<char>) -> Seq<char> {
    if s.len() > 0 && s.first() == '+' {
        s.drop_first()
    } else {
        s
    }
}

/// The number that `digits` spells, if it is a run of one or more digits that
/// spells at most `limit`.
pub open spec fn bounded_decimal(digits: Seq<char>, limit: u64) -> Option<u64> {
    if digits.len() > 0 && all_digits(digits) && decimal_value(digits) <= limit {
        Some(decimal_value(digits) as u64)
    } else {
        None
    }
}

/// The number that `text` holds, if it holds one that is at most `limit`:
/// white space, an optional `+`, one or more digits, white space.
pub open spec fn parsed_unsigned(text: Seq<char>, limit: u64) -> Option<u64> {
    bounded_decimal(without_plus(trimmed(text)), limit)
}

/// Whether `c` is white space.
pub fn char_is_whitespace(c: char) -> (yes: bool)
    ensures
        yes == is_whitespace(c),
{
    let code: u32 = c as u32;
    (0x0009 <= code && code <= 0x000D) || code == 0x0020 || code == 0x0085 || code == 0x00A0
        || code == 0x1680 || (0x2000 <= code && code <= 0x200A) || code == 0x2028 || code
        == 0x2029 || code == 0x202F || code == 0x205F || code == 0x3000
}

/// The characters of `text`, in order.
pub fn chars_of(text: &str) -> (chars: Vec<char>)
    ensures
        chars@ == text@,
{
    let mut chars: Vec<char> = Vec::new();
    for c in it: text.chars()
        invariant
            it.seq() == text@,
            chars@ == it.seq().take(it.index()),
    {
        chars.push(c);
    }
    chars
}

/// Where the part of `chars` without its surrounding white space starts and
/// ends.
pub fn trim_bounds(chars: &Vec<char>) -> (bounds: (usize, usize))
    ensures
        bounds.0 <= bounds.1 <= chars.len(),
        chars@.subrange(bounds.0 as int, bounds.1 as int) == trimmed(chars@),
{
    let len: usize = chars.len();
    let mut start: usize = 0;
    while start < len && char_is_whitespace(chars[start])
        invariant
            len == chars.len(),
            start <= len,
            forall|i: int| 0 <= i < start ==> is_whitespace(#[trigger] chars@[i]),
        decreases len - start,
    {
        start += 1;
    }
    let mut end: usize = len;
    while end > start && char_is_whitespace(chars[end - 1])
        invariant
            len == chars.len(),
            start <= end <= len,
            forall|i: int| end <= i < len ==> is_whitespace(#[trigger] chars@[i]),
        decreases end - start,
    {
        end -= 1;
    }
    proof {
        let rest = chars@.skip(start as int);
        lemma_trim_start_skips(chars@, start as int);
        lemma_trim_end_takes(rest, end - start);
    }
    (start, end)
}

/// The number that the digits `chars[from..to]` spell, if they are digits, at
/// least one, and spell at most `limit`.
pub fn parse_digits(chars: &Vec<char>, from: usize, to: usize, limit: u64) -> (number: Option<u64>)
    requires
        from <= to <= chars.len(),
    ensures
        number == bounded_decimal(chars@.subrange(from as int, to as int), limit),
{
    let ghost digits = chars@.subrange(from as int, to as int);
    if from == to {
        return None;
    }
    let mut value: u64 = 0;
    let mut at: usize = from;
    while at < to
        invariant
            from <= at <= to <= chars.len(),
            digits == chars@.subrange(from as int, to as int),
            all_digits(digits.take(at - from)),
            value == decimal_value(digits.take(at - from)),
            value <= limit,
        decreases to - at,
    {
        let c: char = chars[at];
        let ghost seen = digits.take(at - from + 1);
        proof {
            assert(seen.drop_last() =~= digits.take(at - from));
            lemma_decimal_value_grows(digits, at - from + 1);
        }
        if !(c >= '0' && c <= '9') {
            return None;
        }
        let digit: u64 = (c as u32 - '0' as u32) as u64;
        if digit > limit || value > (limit - digit) / 10 {
            return None;
        }
        value = 10 * value + digit;
        at += 1;
    }
    assert(digits.take(to - from) =~= digits);
    Some(value)
}

/// Reads the number that `text` holds, if it holds one that is at most
/// `limit`.
pub fn parse_unsigned(text: &str, limit: u64) -> (number: Option<u64>)
    ensures
        number == parsed_unsigned(text@, limit),
{
    let chars = chars_of(text);
    let (start, end) = trim_bounds(&chars);
    let from: usize = if start < end && chars[start] == '+' {
        start + 1
    } else {
        start
    };
    proof {
        let inner = chars@.subrange(start as int, end as int);
        assert(without_plus(inner) =~= chars@.subrange(from as int, end as int));
    }
    parse_digits(&chars, from, end, limit)
}

/// Where `trim_start` cuts: behind a run of white space that ends at `k`.
pub proof fn lemma_trim_start_skips(s: Seq<char>, k: int)
    requires
        0 <= k <= s.len(),
        forall|i: int| 0 <= i < k ==> is_whitespace(#[trigger] s[i]),
        k == s.len() || !is_whitespace(s[k]),
    ensures
        trim_start(s) == s.skip(k),
    decreases k,
{
    if k > 0 {
        lemma_trim_start_skips(s.drop_first(), k - 1);
    }
}

/// Where `trim_end` cuts: before a run of white space that starts at `k`.
pub proof fn lemma_trim_end_takes(s: Seq<char>, k: int)
    requires
        0 <= k <= s.len(),
        forall|i: int| k <= i < s.len() ==> is_whitespace(#[trigger] s[i]),
        k == 0 || !is_whitespace(s[k - 1]),
    ensures
        trim_end(s) == s.take(k),
    decreases s.len() - k,
{
    if k < s.len() {
        lemma_trim_end_takes(s.drop_last(), k);
    }
}

/// A run of digits spells at least what any of its prefixes spells.
pub proof fn lemma_decimal_value_grows(digits: Seq<char>, k: int)
    requires
        0 <= k <= digits.len(),
    ensures
        decimal_value(digits.take(k)) <= decimal_value(digits),
    decreases digits.len() - k,
{
    if k == digits.len() {
        assert(digits.take(k) =~= digits);
    } else {
        lemma_decimal_value_grows(digits.drop_last(), k);
        assert(digits.drop_last().take(k) =~= digits.take(k));
    }
}

/// Where `trim_start` cuts `s`: the result is the first place at which no
/// white space stands, or the end of `s`, and all before it is white space.
pub proof fn lemma_trim_start_cut(s: Seq<char>) -> (cut: int)
    ensures
        0 <= cut <= s.len(),
        trim_start(s) == s.skip(cut),
        forall|i: int| 0 <= i < cut ==> is_whitespace(#[trigger] s[i]),
        cut == s.len() || !is_whitespace(s[cut]),
    decreases s.len(),
{
    if s.len() > 0 && is_whitespace(s.first()) {
        let rest = s.drop_first();
        let cut_of_rest = lemma_trim_start_cut(rest);
        assert forall|i: int| 0 <= i < cut_of_rest + 1 implies is_whitespace(#[trigger] s[i]) by {
            if i > 0 {
                assert(s[i] == rest[i - 1]);
            }
        }
        cut_of_rest + 1
    } else {
        0
    }
}

/// Where `trim_end` cuts `s`: the result is the place behind the last
/// character that is no white space, or the start of `s`, and all from it on
/// is white space.
pub proof fn lemma_trim_end_cut(s: Seq<char>) -> (cut: int)
    ensures
        0 <= cut <= s.len(),
        trim_end(s) == s.take(cut),
        forall|i: int| cut <= i < s.len() ==> is_whitespace(#[trigger] s[i]),
        cut == 0 || !is_whitespace(s[cut - 1]),
    decreases s.len(),
{
    if s.len() > 0 && is_whitespace(s.last()) {
        let rest = s.drop_last();
        let cut = lemma_trim_end_cut(rest);
        assert forall|i: int| cut <= i < s.len() implies is_whitespace(#[trigger] s[i]) by {
            if i < rest.len() {
                assert(s[i] == rest[i]);
            }
        }
        cut
    } else {
        s.len() as int
    }
}

/// What `trimmed` keeps of `s`: the stretch from the first to the last
/// character that is no white space. The result gives its two ends.
pub proof fn lemma_trimmed_frame(s: Seq<char>) -> (frame: (int, int))
    ensures
        0 <= frame.0 <= frame.1 <= s.len(),
        trimmed(s) == s.subrange(frame.0, frame.1),
        forall|i: int| 0 <= i < frame.0 ==> is_whitespace(#[trigger] s[i]),
        forall|i: int| frame.1 <= i < s.len() ==> is_whitespace(#[trigger] s[i]),
        frame.0 < frame.1 ==> !is_whitespace(s[frame.0]) && !is_whitespace(s[frame.1 - 1]),
{
    let start = lemma_trim_start_cut(s);
    let rest = s.skip(start);
    let kept = lemma_trim_end_cut(rest);
    assert forall|i: int| start + kept <= i < s.len() implies is_whitespace(#[trigger] s[i]) by {
        assert(s[i] == rest[i - start]);
    }
    (start, start + kept)
}

/// Trimming a text that neither starts nor ends with white space gives the
/// text itself.
pub proof fn lemma_trimmed_keeps_tight_text(s: Seq<char>)
    requires
        s.len() > 0 ==> !is_whitespace(s.first()) && !is_whitespace(s.last()),
    ensures
        trimmed(s) == s,
{
}

/// White space around a text that neither starts nor ends with white space
/// is all that trimming takes away.
pub proof fn lemma_trimmed_drops_padding(before: Seq<char>, body: Seq<char>, after: Seq<char>)
    requires
        forall|i: int| 0 <= i < before.len() ==> is_whitespace(#[trigger] before[i]),
        forall|i: int| 0 <= i < after.len() ==> is_whitespace(#[trigger] after[i]),
        body.len() > 0,
        !is_whitespace(body.first()),
        !is_whitespace(body.last()),
    ensures
        trimmed(before + body + after) == body,
{
    let s = before + body + after;
    let start = before.len() as int;
    let rest = s.skip(start);
    lemma_trim_start_skips(s, start);
    lemma_trim_end_takes(rest, body.len() as int);
}

/// A text of nothing but white space, the empty text among them, holds no
/// number.
pub proof fn lemma_blank_text_holds_no_number(text: Seq<char>, limit: u64)
    requires
        forall|i: int| 0 <= i < text.len() ==> is_whitespace(#[trigger] text[i]),
    ensures
        parsed_unsigned(text, limit).is_none(),
{
    lemma_trimmed_frame(text);
}

/// A text with a character in it that is neither white space nor a digit
/// nor `+` holds no number: a `-`, a letter, a point.
pub proof fn lemma_foreign_character_holds_no_number(text: Seq<char>, at: int, limit: u64)
    requires
        0 <= at < text.len(),
        !is_whitespace(text[at]),
        !is_digit(text[at]),
        text[at] != '+',
    ensures
        parsed_unsigned(text, limit).is_none(),
{
    let (start, _) = lemma_trimmed_frame(text);
    let kept = trimmed(text);
    let digits = without_plus(kept);
    if kept.first() == '+' {
        assert(digits[at - start - 1] == text[at]);
    } else {
        assert(digits[at - start] == text[at]);
    }
}

/// White space inside a number breaks it: a text with white space between
/// two characters that are none holds no number.
pub proof fn lemma_inner_whitespace_holds_no_number(
    text: Seq<char>,
    left: int,
    gap: int,
    right: int,
    limit: u64,
)
    requires
        0 <= left < gap < right < text.len(),
        !is_whitespace(text[left]),
        is_whitespace(text[gap]),
        !is_whitespace(text[right]),
    ensures
        parsed_unsigned(text, limit).is_none(),
{
    let (start, _) = lemma_trimmed_frame(text);
    let kept = trimmed(text);
    let digits = without_plus(kept);
    if kept.first() == '+' {
        assert(digits[gap - start - 1] == text[gap]);
    } else {
        assert(digits[gap - start] == text[gap]);
    }
}

/// A text of digits and nothing else, at least one, holds the number that
/// they spell, if that is within the limit.
pub proof fn lemma_digits_hold_their_number(digits: Seq<char>, limit: u64)
    requires
        digits.len() > 0,
        all_digits(digits),
    ensures
        parsed_unsigned(digits, limit) == bounded_decimal(digits, limit),
        decimal_value(digits) <= limit ==> parsed_unsigned(digits, limit) == Some(
            decimal_value(digits) as u64,
        ),
        decimal_value(digits) > limit ==> parsed_unsigned(digits, limit).is_none(),
{
    lemma_trimmed_keeps_tight_text(digits);
}

/// A `+` before the digits, and white space around it all, change nothing
/// of the number that a text holds.
pub proof fn lemma_sign_and_padding_change_nothing(
    before: Seq<char>,
    digits: Seq<char>,
    after: Seq<char>,
    limit: u64,
)
    requires
        forall|i: int| 0 <= i < before.len() ==> is_whitespace(#[trigger] before[i]),
        forall|i: int| 0 <= i < after.len() ==> is_whitespace(#[trigger] after[i]),
        digits.len() > 0,
        all_digits(digits),
    ensures
        parsed_unsigned(before + digits + after, limit) == parsed_unsigned(digits, limit),
        parsed_unsigned(before + (seq!['+'] + digits) + after, limit) == parsed_unsigned(
            digits,
            limit,
        ),
{
    lemma_digits_hold_their_number(digits, limit);
    lemma_trimmed_drops_padding(before, digits, after);
    let signed = seq!['+'] + digits;
    lemma_trimmed_drops_padding(before, signed, after);
    assert(without_plus(signed) =~= digits);
}

/// Writing one more digit behind a run multiplies what it spells by ten and
/// adds the digit.
pub proof fn lemma_decimal_value_push(digits: Seq<char>, digit: char)
    ensures
        decimal_value(digits.push(digit)) == 10 * decimal_value(digits) + digit_value(digit),
{
    assert(digits.push(digit).drop_last() =~= digits);
}

/// Zeros before a run of digits do not change what it spells.
pub proof fn lemma_leading_zero_counts_nothing(digits: Seq<char>)
    ensures
        decimal_value(seq!['0'] + digits) == decimal_value(digits),
    decreases digits.len(),
{
    let zero = seq!['0'];
    if digits.len() == 0 {
        assert(decimal_value(zero) == 10 * decimal_value(zero.drop_last()) + digit_value('0'));
    } else {
        lemma_leading_zero_counts_nothing(digits.drop_last());
        assert((zero + digits).drop_last() =~= zero + digits.drop_last());
    }
}

/// The usual writing of a number is a run of digits that spells the number.
pub proof fn lemma_decimal_digits_spell_their_number(n: nat)
    ensures
        decimal_digits(n).len() > 0,
        all_digits(decimal_digits(n)),
        decimal_value(decimal_digits(n)) == n,
    decreases n,
{
    if n < 10 {
        let written = decimal_digits(n);
        assert(decimal_value(written) == 10 * decimal_value(written.drop_last()) + digit_value(
            written.last(),
        ));
    } else {
        lemma_decimal_digits_spell_their_number(n / 10);
        lemma_decimal_value_push(decimal_digits(n / 10), digit_char(n % 10));
    }
}

/// Every number within the limit can be written so that it is read back: its
/// usual writing holds it.
pub proof fn lemma_written_number_reads_back(n: u64, limit: u64)
    requires
        n <= limit,
    ensures
        parsed_unsigned(decimal_digits(n as nat), limit) == Some(n),
{
    lemma_decimal_digits_spell_their_number(n as nat);
    lemma_digits_hold_their_number(decimal_digits(n as nat), limit);
}

} // verus!
