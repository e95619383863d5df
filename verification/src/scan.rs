//! Reading text a character at a time: whitespace, trimming, searching,
//! words, ASCII case and decimal numbers.
//!
//! The scanners work on a window `from..to` of a character vector, so a
//! caller can take a line apart without copying it first. Each one states
//! its result over the window's characters.

use vstd::prelude::*;

use crate::text::string_from_chars;

verus! {

/// The characters `char::is_whitespace` accepts: Unicode's White_Space
/// property.
pub open spec fn is_white_space(c: char) -> bool {
    ||| '\u{9}' <= c <= '\u{d}'
    ||| c == ' '
    ||| c == '\u{85}'
    ||| c == '\u{a0}'
    ||| c == '\u{1680}'
    ||| '\u{2000}' <= c <= '\u{200a}'
    ||| c == '\u{2028}'
    ||| c == '\u{2029}'
    ||| c == '\u{202f}'
    ||| c == '\u{205f}'
    ||| c == '\u{3000}'
}

/// `text` without its leading whitespace.
pub open spec fn trim_start(text: Seq<char>) -> Seq<char>
    decreases text.len(),
{
    if text.len() > 0 && is_white_space(text[0]) {
        trim_start(text.skip(1))
    } else {
        text
    }
}

/// `text` without its trailing whitespace.
pub open spec fn trim_end(text: Seq<char>) -> Seq<char>
    decreases text.len(),
{
    if text.len() > 0 && is_white_space(text.last()) {
        trim_end(text.drop_last())
    } else {
        text
    }
}

/// What `str::trim` leaves: `text` without whitespace at either end.
pub open spec fn trimmed(text: Seq<char>) -> Seq<char> {
    trim_end(trim_start(text))
}

/// Where `target` first occurs in `text`, or the length of `text` when it
/// does not occur at all.
pub open spec fn first_index_of(text: Seq<char>, target: char) -> int
    decreases text.len(),
{
    if text.len() == 0 || text[0] == target {
        0
    } else {
        1 + first_index_of(text.skip(1), target)
    }
}

/// Where the first whitespace character of `text` is, or its length.
pub open spec fn first_white_space(text: Seq<char>) -> int
    decreases text.len(),
{
    if text.len() == 0 || is_white_space(text[0]) {
        0
    } else {
        1 + first_white_space(text.skip(1))
    }
}

/// The first word of `text`, as `str::split_whitespace` finds it; empty when
/// there is none.
pub open spec fn first_word(text: Seq<char>) -> Seq<char> {
    let rest = trim_start(text);
    rest.take(first_white_space(rest))
}

/// Everything after the first word of `text`.
pub open spec fn after_first_word(text: Seq<char>) -> Seq<char> {
    let rest = trim_start(text);
    rest.skip(first_white_space(rest))
}

/// An ASCII capital made small; every other character unchanged.
pub open spec fn ascii_lower(c: char) -> char {
    if 'A' <= c <= 'Z' {
        (((c as u32) + 32) as u8) as char
    } else {
        c
    }
}

/// `str::eq_ignore_ascii_case`: the same text once ASCII letters are folded
/// to one case.
pub open spec fn same_ignoring_ascii_case(left: Seq<char>, right: Seq<char>) -> bool {
    &&& left.len() == right.len()
    &&& forall|i: int| 0 <= i < left.len() ==> ascii_lower(#[trigger] left[i]) == ascii_lower(
        right[i],
    )
}

/// A decimal digit.
pub open spec fn is_digit(c: char) -> bool {
    '0' <= c <= '9'
}

/// The number a string of decimal digits writes.
pub open spec fn digits_value(digits: Seq<char>) -> int
    decreases digits.len(),
{
    if digits.len() == 0 {
        0
    } else {
        digits_value(digits.drop_last()) * 10 + (digits.last() as int - 48)
    }
}

/// The digits `u64`'s parser reads: all of `text`, less one leading `+`.
pub open spec fn unsigned_digits(text: Seq<char>) -> Seq<char> {
    if text.len() > 0 && text[0] == '+' {
        text.skip(1)
    } else {
        text
    }
}

/// What `text.parse::<u64>()` gives: an optional `+`, then at least one
/// decimal digit and nothing else, naming a number that fits.
pub open spec fn parsed_u64(text: Seq<char>) -> Option<u64> {
    let digits = unsigned_digits(text);
    if digits.len() > 0 && (forall|i: int| 0 <= i < digits.len() ==> is_digit(#[trigger] digits[i]))
        && digits_value(digits) <= u64::MAX {
        Some(digits_value(digits) as u64)
    } else {
        None
    }
}

/// How `Display` writes a number: its decimal digits, no leading zeros.
pub open spec fn decimal(value: nat) -> Seq<char>
    decreases value,
{
    if value < 10 {
        seq![(48 + value) as char]
    } else {
        decimal(value / 10) + seq![(48 + value % 10) as char]
    }
}

/// Appends the decimal digits of `value`, as `Display` writes them.
pub fn push_decimal(out: &mut Vec<char>, value: u64)
    ensures
        final(out)@ == old(out)@ + decimal(value as nat),
    decreases value,
{
    if value >= 10 {
        push_decimal(out, value / 10);
    }
    let digit = ((48 + value % 10) as u8) as char;
    out.push(digit);
    assert(out@ =~= old(out)@ + decimal(value as nat));
}

/// `value` written in decimal, as `Display` writes it.
pub fn decimal_string(value: u64) -> (text: String)
    ensures
        text@ == decimal(value as nat),
{
    let mut out: Vec<char> = Vec::new();
    push_decimal(&mut out, value);
    assert(out@ =~= decimal(value as nat));
    string_from_chars(&out)
}

/// Whether `char::is_whitespace` accepts `c`.
pub fn white_space(c: char) -> (r: bool)
    ensures
        r == is_white_space(c),
{
    ('\u{9}' <= c && c <= '\u{d}') || c == ' ' || c == '\u{85}' || c == '\u{a0}' || c == '\u{1680}'
        || ('\u{2000}' <= c && c <= '\u{200a}') || c == '\u{2028}' || c == '\u{2029}' || c
        == '\u{202f}' || c == '\u{205f}' || c == '\u{3000}'
}

/// Where `chars[from..to]` starts once its leading whitespace is skipped.
pub fn skip_white_space(chars: &Vec<char>, from: usize, to: usize) -> (at: usize)
    requires
        from <= to <= chars@.len(),
    ensures
        from <= at <= to,
        chars@.subrange(at as int, to as int) == trim_start(chars@.subrange(from as int, to as int)),
{
    let mut low = from;
    while low < to && white_space(chars[low])
        invariant
            from <= low <= to <= chars@.len(),
            trim_start(chars@.subrange(from as int, to as int)) == trim_start(
                chars@.subrange(low as int, to as int),
            ),
        decreases to - low,
    {
        assert(chars@.subrange(low as int, to as int).skip(1) =~= chars@.subrange(
            low + 1,
            to as int,
        ));
        low += 1;
    }
    low
}

/// Whether two character vectors hold the same characters.
pub fn same_chars(left: &Vec<char>, right: &Vec<char>) -> (same: bool)
    ensures
        same == (left@ == right@),
{
    if left.len() != right.len() {
        return false;
    }
    let mut i: usize = 0;
    while i < left.len()
        invariant
            left@.len() == right@.len(),
            i <= left@.len(),
            forall|j: int| 0 <= j < i ==> left@[j] == right@[j],
        decreases left@.len() - i,
    {
        if left[i] != right[i] {
            return false;
        }
        i += 1;
    }
    assert(left@ =~= right@);
    true
}

/// The bounds of `chars[from..to]` once trimmed at both ends.
pub fn trim_window(chars: &Vec<char>, from: usize, to: usize) -> (bounds: (usize, usize))
    requires
        from <= to <= chars@.len(),
    ensures
        from <= bounds.0 <= bounds.1 <= to,
        chars@.subrange(bounds.0 as int, bounds.1 as int) == trimmed(
            chars@.subrange(from as int, to as int),
        ),
{
    let low = skip_white_space(chars, from, to);
    let mut high = to;
    while high > low && white_space(chars[high - 1])
        invariant
            from <= low <= high <= to <= chars@.len(),
            trim_start(chars@.subrange(from as int, to as int)) == chars@.subrange(
                low as int,
                to as int,
            ),
            trimmed(chars@.subrange(from as int, to as int)) == trim_end(
                chars@.subrange(low as int, high as int),
            ),
        decreases high - low,
    {
        assert(chars@.subrange(low as int, high as int).drop_last() =~= chars@.subrange(
            low as int,
            high - 1,
        ));
        high -= 1;
    }
    (low, high)
}

/// Where `target` first occurs in `chars[from..to]`, counted from `from`;
/// `to` when it does not occur.
pub fn find_in_window(chars: &Vec<char>, from: usize, to: usize, target: char) -> (at: usize)
    requires
        from <= to <= chars@.len(),
    ensures
        from <= at <= to,
        at - from == first_index_of(chars@.subrange(from as int, to as int), target),
{
    let mut at = from;
    while at < to && chars[at] != target
        invariant
            from <= at <= to <= chars@.len(),
            first_index_of(chars@.subrange(from as int, to as int), target) == (at - from)
                + first_index_of(chars@.subrange(at as int, to as int), target),
        decreases to - at,
    {
        assert(chars@.subrange(at as int, to as int).skip(1) =~= chars@.subrange(
            at + 1,
            to as int,
        ));
        at += 1;
    }
    at
}

/// Where the first whitespace character of `chars[from..to]` is; `to` when
/// there is none.
pub fn white_space_in_window(chars: &Vec<char>, from: usize, to: usize) -> (at: usize)
    requires
        from <= to <= chars@.len(),
    ensures
        from <= at <= to,
        at - from == first_white_space(chars@.subrange(from as int, to as int)),
{
    let mut at = from;
    while at < to && !white_space(chars[at])
        invariant
            from <= at <= to <= chars@.len(),
            first_white_space(chars@.subrange(from as int, to as int)) == (at - from)
                + first_white_space(chars@.subrange(at as int, to as int)),
        decreases to - at,
    {
        assert(chars@.subrange(at as int, to as int).skip(1) =~= chars@.subrange(
            at + 1,
            to as int,
        ));
        at += 1;
    }
    at
}

/// `c` with an ASCII capital made small.
pub fn lower_ascii(c: char) -> (r: char)
    ensures
        r == ascii_lower(c),
{
    if 'A' <= c && c <= 'Z' {
        (((c as u32) + 32) as u8) as char
    } else {
        c
    }
}

/// Whether `chars[from..to]` is `expected` once ASCII case is ignored.
pub fn window_eq_ignore_ascii_case(
    chars: &Vec<char>,
    from: usize,
    to: usize,
    expected: &Vec<char>,
) -> (same: bool)
    requires
        from <= to <= chars@.len(),
    ensures
        same == same_ignoring_ascii_case(chars@.subrange(from as int, to as int), expected@),
{
    let ghost window = chars@.subrange(from as int, to as int);
    if to - from != expected.len() {
        return false;
    }
    let mut i: usize = 0;
    while i < expected.len()
        invariant
            from <= to <= chars@.len(),
            window == chars@.subrange(from as int, to as int),
            to - from == expected@.len(),
            i <= expected@.len(),
            forall|j: int| 0 <= j < i ==> ascii_lower(#[trigger] window[j]) == ascii_lower(
                expected@[j],
            ),
        decreases expected@.len() - i,
    {
        if lower_ascii(chars[from + i]) != lower_ascii(expected[i]) {
            assert(ascii_lower(window[i as int]) != ascii_lower(expected@[i as int]));
            return false;
        }
        i += 1;
    }
    true
}

/// The characters `chars[from..to]` as a string.
pub fn window_string(chars: &Vec<char>, from: usize, to: usize) -> (text: String)
    requires
        from <= to <= chars@.len(),
    ensures
        text@ == chars@.subrange(from as int, to as int),
{
    let mut out: Vec<char> = Vec::new();
    let mut i = from;
    while i < to
        invariant
            from <= i <= to <= chars@.len(),
            out@ == chars@.subrange(from as int, i as int),
        decreases to - i,
    {
        out.push(chars[i]);
        assert(out@ =~= chars@.subrange(from as int, i + 1));
        i += 1;
    }
    string_from_chars(&out)
}

/// A longer run of digits never names a smaller number than its start.
proof fn lemma_digits_value_grows(digits: Seq<char>, count: int)
    requires
        0 <= count <= digits.len(),
        forall|i: int| 0 <= i < digits.len() ==> is_digit(#[trigger] digits[i]),
    ensures
        digits_value(digits.take(count)) <= digits_value(digits),
        0 <= digits_value(digits),
    decreases digits.len(),
{
    if digits.len() > 0 {
        let shorter = digits.drop_last();
        assert forall|i: int| 0 <= i < shorter.len() implies is_digit(#[trigger] shorter[i]) by {
            assert(shorter[i] == digits[i]);
        }
        if count < digits.len() {
            lemma_digits_value_grows(shorter, count);
            assert(shorter.take(count) =~= digits.take(count));
        } else {
            lemma_digits_value_grows(shorter, 0);
            assert(digits.take(count) =~= digits);
        }
    }
}

/// `chars[from..to].parse::<u64>()`, with the error dropped.
pub fn parse_u64_window(chars: &Vec<char>, from: usize, to: usize) -> (value: Option<u64>)
    requires
        from <= to <= chars@.len(),
    ensures
        value == parsed_u64(chars@.subrange(from as int, to as int)),
{
    let ghost text = chars@.subrange(from as int, to as int);
    let start = if from < to && chars[from] == '+' {
        from + 1
    } else {
        from
    };
    let ghost digits = chars@.subrange(start as int, to as int);
    assert(digits =~= unsigned_digits(text));
    if start == to {
        return None;
    }
    let mut value: u64 = 0;
    let mut i = start;
    while i < to
        invariant
            from <= start <= i <= to <= chars@.len(),
            digits == chars@.subrange(start as int, to as int),
            text == chars@.subrange(from as int, to as int),
            digits == unsigned_digits(text),
            digits.len() > 0,
            forall|j: int| 0 <= j < i - start ==> is_digit(#[trigger] digits[j]),
            value == digits_value(digits.take(i - start)),
        decreases to - i,
    {
        let c = chars[i];
        if !('0' <= c && c <= '9') {
            assert(!is_digit(digits[i - start]));
            return None;
        }
        let digit = (c as u32 - 48) as u64;
        assert(digits.take(i - start + 1).drop_last() =~= digits.take(i - start));
        assert(digits.take(i - start + 1).last() == c);
        assert(is_digit(digits[i - start]));
        let ghost next = digits_value(digits.take(i - start + 1));
        match value.checked_mul(10) {
            Some(scaled) => match scaled.checked_add(digit) {
                Some(sum) => {
                    value = sum;
                },
                None => {
                    proof {
                        lemma_overflow_is_final(digits, i - start + 1);
                    }
                    return None;
                },
            },
            None => {
                proof {
                    lemma_overflow_is_final(digits, i - start + 1);
                }
                return None;
            },
        }
        i += 1;
    }
    assert(digits.take(to - start) =~= digits);
    Some(value)
}

/// Once a prefix of digits overflows `u64`, no way of finishing the text
/// parses: either a later character is not a digit, or the whole overflows.
proof fn lemma_overflow_is_final(digits: Seq<char>, count: int)
    requires
        0 < count <= digits.len(),
        forall|j: int| 0 <= j < count ==> is_digit(#[trigger] digits[j]),
        digits_value(digits.take(count)) > u64::MAX,
    ensures
        !(forall|i: int| 0 <= i < digits.len() ==> is_digit(#[trigger] digits[i]))
            || digits_value(digits) > u64::MAX,
{
    if forall|i: int| 0 <= i < digits.len() ==> is_digit(#[trigger] digits[i]) {
        lemma_digits_value_grows(digits, count);
    }
}

} // verus!
