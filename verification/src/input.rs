//! The input validator: a raw line is trimmed and classified, in a fixed
//! order of rules, into a non-negative index or one of six error categories.

use vstd::prelude::*;

use crate::decimal::dec_digits;
use crate::decimal::digit_value;
use crate::decimal::digits_value;
use crate::decimal::is_digit_char;
use crate::decimal::lemma_dec_digits_value;
use crate::errors::InputError;

verus! {

/// Whether `c` has the Unicode `White_Space` property, the set a trimming
/// pass strips from both ends of the input.
pub open spec fn is_space_char(c: char) -> bool {
    c == ' ' || c == '\t' || c == '\n' || c == '\u{b}' || c == '\u{c}' || c == '\r' || c
        == '\u{85}' || c == '\u{a0}' || c == '\u{1680}' || ('\u{2000}' <= c && c <= '\u{200a}') || c
        == '\u{2028}' || c == '\u{2029}' || c == '\u{202f}' || c == '\u{205f}' || c == '\u{3000}'
}

/// `s` without its leading whitespace.
pub open spec fn trim_start_spec(s: Seq<char>) -> Seq<char>
    decreases s.len(),
{
    if s.len() > 0 && is_space_char(s[0]) {
        trim_start_spec(s.subrange(1, s.len() as int))
    } else {
        s
    }
}

/// `s` without its trailing whitespace.
pub open spec fn trim_end_spec(s: Seq<char>) -> Seq<char>
    decreases s.len(),
{
    if s.len() > 0 && is_space_char(s[s.len() - 1]) {
        trim_end_spec(s.subrange(0, s.len() - 1))
    } else {
        s
    }
}

/// `s` without leading and trailing whitespace.
pub open spec fn trim_spec(s: Seq<char>) -> Seq<char> {
    trim_end_spec(trim_start_spec(s))
}

/// What `parse_input` returns: the trimmed input is held against each
/// validation rule in order, and the first rule broken names the error.
pub open spec fn parse_spec(s: Seq<char>) -> Result<u128, InputError> {
    let t = trim_spec(s);
    if t.len() == 0 {
        Err(InputError::EmptyInput)
    } else if exists|i: int| 0 <= i < t.len() && t[i] == ' ' {
        Err(InputError::MultipleValues)
    } else if t[0] == '-' {
        Err(InputError::NegativeNumber)
    } else if exists|i: int| 0 <= i < t.len() && t[i] == '.' {
        Err(InputError::FloatNumber)
    } else if exists|i: int| 0 <= i < t.len() && !is_digit_char(t[i]) {
        Err(InputError::InvalidCharacters)
    } else if digits_value(t) > u128::MAX {
        Err(InputError::NumberTooLarge)
    } else {
        Ok(digits_value(t) as u128)
    }
}

/// If the first `k` characters of `s` are whitespace and the next one, if
/// any, is not, trimming the start drops exactly those `k` characters.
proof fn lemma_trim_start_at(s: Seq<char>, k: int)
    requires
        0 <= k <= s.len(),
        forall|i: int| 0 <= i < k ==> is_space_char(s[i]),
        k == s.len() || !is_space_char(s[k]),
    ensures
        trim_start_spec(s) == s.subrange(k, s.len() as int),
    decreases k,
{
    if k == 0 {
        assert(s.subrange(0, s.len() as int) =~= s);
    } else {
        let rest = s.subrange(1, s.len() as int);
        lemma_trim_start_at(rest, k - 1);
        assert(rest.subrange(k - 1, rest.len() as int) =~= s.subrange(k, s.len() as int));
    }
}

/// If the characters of `s` from position `m` on are whitespace and the one
/// before, if any, is not, trimming the end keeps exactly the first `m`.
proof fn lemma_trim_end_at(s: Seq<char>, m: int)
    requires
        0 <= m <= s.len(),
        forall|i: int| m <= i < s.len() ==> is_space_char(s[i]),
        m == 0 || !is_space_char(s[m - 1]),
    ensures
        trim_end_spec(s) == s.subrange(0, m),
    decreases s.len() - m,
{
    if m == s.len() {
        assert(s.subrange(0, m) =~= s);
    } else {
        let rest = s.subrange(0, s.len() - 1);
        lemma_trim_end_at(rest, m);
        assert(rest.subrange(0, m) =~= s.subrange(0, m));
    }
}

/// Round-trip law: the decimal rendering of any `u128` value, given back to
/// the validator, is accepted and denotes that exact value.
pub proof fn lemma_decimal_round_trip(n: u128)
    ensures
        parse_spec(dec_digits(n as nat)) == Ok::<u128, InputError>(n),
{
    let t = dec_digits(n as nat);
    lemma_dec_digits_value(n as nat);
    assert(forall|i: int| 0 <= i < t.len() ==> !is_space_char(#[trigger] t[i]));
    lemma_trim_start_at(t, 0);
    assert(t.subrange(0, t.len() as int) =~= t);
    lemma_trim_end_at(t, t.len() as int);
    assert(trim_spec(t) == t);
}

/// Whether `c` has the Unicode `White_Space` property.
fn is_space(c: char) -> (r: bool)
    ensures
        r == is_space_char(c),
{
    c == ' ' || c == '\t' || c == '\n' || c == '\u{b}' || c == '\u{c}' || c == '\r' || c
        == '\u{85}' || c == '\u{a0}' || c == '\u{1680}' || ('\u{2000}' <= c && c <= '\u{200a}') || c
        == '\u{2028}' || c == '\u{2029}' || c == '\u{202f}' || c == '\u{205f}' || c == '\u{3000}'
}

/// A digit sequence denotes at least as much as any of its prefixes.
proof fn lemma_digits_value_prefix(t: Seq<char>, k: int)
    requires
        0 <= k <= t.len(),
    ensures
        digits_value(t) >= digits_value(t.subrange(0, k)),
    decreases t.len() - k,
{
    if k == t.len() {
        assert(t.subrange(0, k) =~= t);
    } else {
        let p = t.subrange(0, k + 1);
        assert(p.drop_last() =~= t.subrange(0, k));
        assert(digits_value(p) == digits_value(t.subrange(0, k)) * 10 + digit_value(t[k]));
        assert(digits_value(t.subrange(0, k)) * 10 >= digits_value(t.subrange(0, k)))
            by (nonlinear_arith);
        lemma_digits_value_prefix(t, k + 1);
    }
}

/// `s` without its leading and trailing whitespace.
pub fn trim(input: &str) -> (r: &str)
    ensures
        r@ == trim_spec(input@),
{
    let ghost s = input@;
    let len = input.unicode_len();
    let mut start: usize = 0;
    while start < len && is_space(input.get_char(start))
        invariant
            0 <= start <= len,
            len == s.len(),
            s == input@,
            forall|i: int| 0 <= i < start ==> is_space_char(s[i]),
        decreases len - start,
    {
        start = start + 1;
    }
    let mut end: usize = len;
    while end > start && is_space(input.get_char(end - 1))
        invariant
            start <= end <= len,
            len == s.len(),
            s == input@,
            forall|i: int| 0 <= i < start ==> is_space_char(s[i]),
            start == len || !is_space_char(s[start as int]),
            forall|i: int| end <= i < len ==> is_space_char(s[i]),
        decreases end,
    {
        end = end - 1;
    }
    let trimmed = input.substring_char(start, end);
    proof {
        lemma_trim_start_at(s, start as int);
        let tail = s.subrange(start as int, s.len() as int);
        lemma_trim_end_at(tail, end - start);
        assert(tail.subrange(0, end - start) =~= s.subrange(start as int, end as int));
    }
    trimmed
}

/// Validates a raw input line and parses it as a non-negative `u128` index.
///
/// The line is trimmed of leading and trailing whitespace, then held against
/// the rules in this order, the first broken rule winning: empty input, an
/// internal space, a leading minus sign, a decimal point, any character that
/// is not an ASCII digit, and a value above `u128::MAX`.
pub fn parse_input(input: &str) -> (r: Result<u128, InputError>)
    ensures
        r == parse_spec(input@),
{
    let ghost s = input@;
    let trimmed = trim(input);
    let ghost t = trimmed@;
    let tlen = trimmed.unicode_len();
    if tlen == 0 {
        return Err(InputError::EmptyInput);
    }
    let mut i: usize = 0;
    while i < tlen
        invariant
            0 <= i <= tlen,
            tlen == t.len(),
            t == trimmed@,
            t == trim_spec(input@),
            t.len() > 0,
            forall|j: int| 0 <= j < i ==> t[j] != ' ',
        decreases tlen - i,
    {
        if trimmed.get_char(i) == ' ' {
            return Err(InputError::MultipleValues);
        }
        i = i + 1;
    }
    if trimmed.get_char(0) == '-' {
        return Err(InputError::NegativeNumber);
    }
    let mut i: usize = 0;
    while i < tlen
        invariant
            0 <= i <= tlen,
            tlen == t.len(),
            t == trimmed@,
            t == trim_spec(input@),
            t.len() > 0,
            !(exists|j: int| 0 <= j < t.len() && t[j] == ' '),
            t[0] != '-',
            forall|j: int| 0 <= j < i ==> t[j] != '.',
        decreases tlen - i,
    {
        if trimmed.get_char(i) == '.' {
            return Err(InputError::FloatNumber);
        }
        i = i + 1;
    }
    let mut i: usize = 0;
    while i < tlen
        invariant
            0 <= i <= tlen,
            tlen == t.len(),
            t == trimmed@,
            t == trim_spec(input@),
            t.len() > 0,
            !(exists|j: int| 0 <= j < t.len() && t[j] == ' '),
            t[0] != '-',
            !(exists|j: int| 0 <= j < t.len() && t[j] == '.'),
            forall|j: int| 0 <= j < i ==> is_digit_char(t[j]),
        decreases tlen - i,
    {
        let c = trimmed.get_char(i);
        if c < '0' || c > '9' {
            return Err(InputError::InvalidCharacters);
        }
        i = i + 1;
    }
    let mut value: u128 = 0;
    let mut i: usize = 0;
    while i < tlen
        invariant
            0 <= i <= tlen,
            tlen == t.len(),
            t == trimmed@,
            forall|j: int| 0 <= j < t.len() ==> is_digit_char(t[j]),
            t.len() > 0,
            !(exists|j: int| 0 <= j < t.len() && t[j] == ' '),
            t[0] != '-',
            !(exists|j: int| 0 <= j < t.len() && t[j] == '.'),
            t == trim_spec(s),
            s == input@,
            value == digits_value(t.subrange(0, i as int)),
        decreases tlen - i,
    {
        let c = trimmed.get_char(i);
        let d: u128 = (c as u32 - '0' as u32) as u128;
        proof {
            assert(d == digit_value(t[i as int]));
            assert(t.subrange(0, i + 1).drop_last() =~= t.subrange(0, i as int));
            assert(digits_value(t.subrange(0, i + 1)) == value * 10 + d);
        }
        if value > (u128::MAX - d) / 10 {
            proof {
                let m = (u128::MAX - d) as int;
                assert(value * 10 > m) by (nonlinear_arith)
                    requires
                        value > m / 10,
                        m >= 0,
                ;
                lemma_digits_value_prefix(t, i + 1);
            }
            return Err(InputError::NumberTooLarge);
        }
        proof {
            let m = (u128::MAX - d) as int;
            assert(value * 10 <= m) by (nonlinear_arith)
                requires
                    value <= m / 10,
                    m >= 0,
            ;
        }
        value = value * 10 + d;
        i = i + 1;
    }
    proof {
        assert(t.subrange(0, tlen as int) =~= t);
    }
    Ok(value)
}

} // verus!
