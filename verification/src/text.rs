//! Building text: upper-case hexadecimal numbers and characters from their
//! code points.

use vstd::prelude::*;
use vstd::string::StrSliceExecFns;

verus! {

/// `String::push` appends one character.
pub assume_specification[ String::push ](s: &mut String, ch: char)
    ensures
        final(s)@ == old(s)@.push(ch),
;

/// The character with code point `i`, where `i` is a Unicode scalar value.
pub open spec fn scalar_value(i: u32) -> Option<char> {
    if i <= 0xD7FF || (0xE000 <= i && i <= 0x10FFFF) {
        Some(i as char)
    } else {
        None
    }
}

/// `char::from_u32` converts exactly the Unicode scalar values.
pub assume_specification[ char::from_u32 ](i: u32) -> (r: Option<char>)
    ensures
        r == scalar_value(i),
;

/// The upper-case hexadecimal digit for a number below sixteen.
pub open spec fn hex_digit(d: int) -> char {
    if d == 0 {
        '0'
    } else if d == 1 {
        '1'
    } else if d == 2 {
        '2'
    } else if d == 3 {
        '3'
    } else if d == 4 {
        '4'
    } else if d == 5 {
        '5'
    } else if d == 6 {
        '6'
    } else if d == 7 {
        '7'
    } else if d == 8 {
        '8'
    } else if d == 9 {
        '9'
    } else if d == 10 {
        'A'
    } else if d == 11 {
        'B'
    } else if d == 12 {
        'C'
    } else if d == 13 {
        'D'
    } else if d == 14 {
        'E'
    } else {
        'F'
    }
}

/// A number in upper-case hexadecimal, without leading zeros.
pub open spec fn hex_upper(n: nat) -> Seq<char>
    decreases n,
{
    if n < 16 {
        seq![hex_digit(n as int)]
    } else {
        hex_upper(n / 16).push(hex_digit((n % 16) as int))
    }
}

/// A number in upper-case hexadecimal, padded with a zero to two digits.
pub open spec fn hex_padded(n: nat) -> Seq<char> {
    if n < 16 {
        seq!['0', hex_digit(n as int)]
    } else {
        hex_upper(n)
    }
}

/// The upper-case hexadecimal digit for a number below sixteen.
pub fn hex_digit_char(d: u64) -> (c: char)
    requires
        d < 16,
    ensures
        c == hex_digit(d as int),
{
    if d == 0 {
        '0'
    } else if d == 1 {
        '1'
    } else if d == 2 {
        '2'
    } else if d == 3 {
        '3'
    } else if d == 4 {
        '4'
    } else if d == 5 {
        '5'
    } else if d == 6 {
        '6'
    } else if d == 7 {
        '7'
    } else if d == 8 {
        '8'
    } else if d == 9 {
        '9'
    } else if d == 10 {
        'A'
    } else if d == 11 {
        'B'
    } else if d == 12 {
        'C'
    } else if d == 13 {
        'D'
    } else if d == 14 {
        'E'
    } else {
        'F'
    }
}

/// Appends `n` in upper-case hexadecimal, without leading zeros.
pub fn push_hex_upper(s: &mut String, n: u64)
    ensures
        final(s)@ == old(s)@ + hex_upper(n as nat),
    decreases n,
{
    if n >= 16 {
        push_hex_upper(s, n / 16);
    }
    s.push(hex_digit_char(n % 16));
}

/// Appends `n` in upper-case hexadecimal, padded with a zero to two digits.
pub fn push_hex_padded(s: &mut String, n: u64)
    ensures
        final(s)@ == old(s)@ + hex_padded(n as nat),
{
    if n < 16 {
        s.push('0');
    }
    push_hex_upper(s, n);
}

/// Bytes in upper-case hexadecimal, two digits each, with colons between
/// them.
pub open spec fn hex_joined(bytes: Seq<u8>) -> Seq<char>
    decreases bytes.len(),
{
    if bytes.len() == 0 {
        Seq::empty()
    } else if bytes.len() == 1 {
        hex_padded(bytes[0] as nat)
    } else {
        hex_joined(bytes.drop_last()) + seq![':'] + hex_padded(bytes.last() as nat)
    }
}

/// Bytes in upper-case hexadecimal, two digits each, with colons between
/// them.
pub fn join_hex(bytes: &[u8]) -> (r: String)
    ensures
        r@ == hex_joined(bytes@),
{
    let mut out = String::new();
    let mut i: usize = 0;
    while i < bytes.len()
        invariant
            i <= bytes@.len(),
            out@ == hex_joined(bytes@.take(i as int)),
        decreases bytes@.len() - i,
    {
        proof {
            assert(bytes@.take(i + 1).drop_last() =~= bytes@.take(i as int));
            assert(bytes@.take(i + 1).last() == bytes@[i as int]);
        }
        if i > 0 {
            out.push(':');
        }
        push_hex_padded(&mut out, bytes[i] as u64);
        i = i + 1;
    }
    proof {
        assert(bytes@.take(bytes@.len() as int) =~= bytes@);
    }
    out
}

/// The characters of a text.
pub fn chars_of(s: &str) -> (r: Vec<char>)
    ensures
        r@ == s@,
{
    let n = s.unicode_len();
    let mut out: Vec<char> = Vec::new();
    let mut i: usize = 0;
    while i < n
        invariant
            i <= n,
            n == s@.len(),
            out@ == s@.take(i as int),
        decreases n - i,
    {
        out.push(s.get_char(i));
        proof {
            assert(s@.take(i + 1) =~= s@.take(i as int).push(s@[i as int]));
        }
        i = i + 1;
    }
    proof {
        assert(s@.take(n as int) =~= s@);
    }
    out
}

/// The parts of a text between the occurrences of a separator: one more
/// than there are separators, empty parts included.
pub open spec fn fields(s: Seq<char>, sep: char) -> Seq<Seq<char>>
    decreases s.len(),
{
    if s.len() == 0 {
        seq![Seq::empty()]
    } else {
        let before = fields(s.drop_last(), sep);
        if s.last() == sep {
            before.push(Seq::empty())
        } else {
            before.drop_last().push(before.last().push(s.last()))
        }
    }
}

/// The texts of a list of strings.
pub open spec fn string_views(v: Seq<String>) -> Seq<Seq<char>> {
    Seq::new(v.len(), |i: int| v[i]@)
}

/// Splits a text at every occurrence of a separator.
pub fn split_text(s: &str, sep: char) -> (r: Vec<String>)
    ensures
        string_views(r@) == fields(s@, sep),
{
    let chars = chars_of(s);
    let mut out: Vec<String> = Vec::new();
    let mut current = String::new();
    let mut i: usize = 0;
    while i < chars.len()
        invariant
            i <= chars@.len(),
            chars@ == s@,
            string_views(out@).push(current@) == fields(s@.take(i as int), sep),
        decreases chars@.len() - i,
    {
        let c = chars[i];
        proof {
            assert(s@.take(i + 1).drop_last() =~= s@.take(i as int));
            assert(s@.take(i + 1).last() == c);
        }
        let ghost before = string_views(out@).push(current@);
        if c == sep {
            out.push(current);
            current = String::new();
            proof {
                assert(string_views(out@) =~= before);
            }
        } else {
            current.push(c);
            proof {
                assert(string_views(out@).push(current@) =~= before.drop_last().push(
                    before.last().push(c),
                ));
            }
        }
        i = i + 1;
    }
    proof {
        assert(s@.take(chars@.len() as int) =~= s@);
    }
    let ghost before = string_views(out@).push(current@);
    out.push(current);
    proof {
        assert(string_views(out@) =~= before);
    }
    out
}

/// Whether a character is a decimal digit.
pub open spec fn is_digit(c: char) -> bool {
    '0' <= c <= '9'
}

/// Whether a text holds decimal digits only.
pub open spec fn all_digits(s: Seq<char>) -> bool {
    forall|i: int| 0 <= i < s.len() ==> is_digit(#[trigger] s[i])
}

/// The number that a text of decimal digits stands for.
pub open spec fn digits_value(s: Seq<char>) -> nat
    decreases s.len(),
{
    if s.len() == 0 {
        0
    } else {
        (digits_value(s.drop_last()) * 10 + (s.last() as u32 - '0' as u32)) as nat
    }
}

/// A leading part of a text of digits stands for no more than the text.
pub proof fn lemma_digits_value_grows(s: Seq<char>, i: int)
    requires
        0 <= i <= s.len(),
        all_digits(s),
    ensures
        digits_value(s.take(i)) <= digits_value(s),
    decreases s.len() - i,
{
    if i < s.len() {
        lemma_digits_value_grows(s, i + 1);
        assert(s.take(i + 1).drop_last() =~= s.take(i));
        assert(is_digit(s[i]));
        assert(s.take(i + 1).last() == s[i]);
    } else {
        assert(s.take(i) =~= s);
    }
}

/// The number that a text stands for: an optional plus sign and at least one
/// decimal digit, as long as the number fits 64 bits.
pub open spec fn u64_of_text(s: Seq<char>) -> Option<u64> {
    let digits = if s.len() > 0 && s[0] == '+' {
        s.skip(1)
    } else {
        s
    };
    if digits.len() > 0 && all_digits(digits) && digits_value(digits) <= u64::MAX {
        Some(digits_value(digits) as u64)
    } else {
        None
    }
}

/// The number that the characters from `start` on stand for, where they are
/// decimal digits, at least one of them, and the number is at most `max`.
pub fn parse_digits(chars: &Vec<char>, start: usize, max: u64) -> (r: Option<u64>)
    requires
        start <= chars@.len(),
    ensures
        r == (if chars@.len() > start && all_digits(chars@.skip(start as int)) && digits_value(
            chars@.skip(start as int),
        ) <= max {
            Some(digits_value(chars@.skip(start as int)) as u64)
        } else {
            None
        }),
{
    let ghost digits = chars@.skip(start as int);
    if chars.len() == start {
        return None;
    }
    let mut value: u64 = 0;
    let mut i: usize = start;
    while i < chars.len()
        invariant
            start <= i <= chars@.len(),
            digits == chars@.skip(start as int),
            all_digits(digits.take(i - start)),
            value == digits_value(digits.take(i - start)),
            value <= max,
        decreases chars@.len() - i,
    {
        let c = chars[i];
        proof {
            assert(digits[i - start] == c);
            assert(digits.take(i - start + 1).drop_last() =~= digits.take(i - start));
            assert(digits.take(i - start + 1).last() == c);
        }
        if c < '0' || c > '9' {
            proof {
                assert(!is_digit(digits[i - start]));
            }
            return None;
        }
        let d: u64 = (c as u32 - '0' as u32) as u64;
        if d > max || value > (max - d) / 10 {
            proof {
                assert(value * 10 + d > max);
                if all_digits(digits) {
                    lemma_digits_value_grows(digits, i - start + 1);
                }
            }
            return None;
        }
        value = value * 10 + d;
        proof {
            assert forall|j: int| 0 <= j < i - start + 1 implies is_digit(
                #[trigger] digits.take(i - start + 1)[j],
            ) by {
                if j < i - start {
                    assert(digits.take(i - start)[j] == digits.take(i - start + 1)[j]);
                }
            }
        }
        i = i + 1;
    }
    proof {
        assert(digits.take(chars@.len() - start) =~= digits);
    }
    Some(value)
}

/// Reads a number as `u64_of_text` does.
pub fn parse_u64(s: &str) -> (r: Option<u64>)
    ensures
        r == u64_of_text(s@),
{
    let chars = chars_of(s);
    let start: usize = if chars.len() > 0 && chars[0] == '+' {
        1
    } else {
        0
    };
    proof {
        if start == 0 {
            assert(chars@.skip(0) =~= chars@);
        }
    }
    parse_digits(&chars, start, u64::MAX)
}

} // verus!
