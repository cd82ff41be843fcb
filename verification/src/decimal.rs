//! Decimal integers as ASCII bytes: reading them with a range check and
//! writing them in their shortest form.

use vstd::prelude::*;
use vstd::utf8::*;
use crate::text::push_text;

verus! {

/// True for the ASCII digits `0` to `9`.
pub open spec fn is_digit(b: u8) -> bool {
    0x30 <= b <= 0x39
}

/// True when every byte of `s` is an ASCII digit.
pub open spec fn all_digits(s: Seq<u8>) -> bool {
    forall|i: int| 0 <= i < s.len() ==> is_digit(#[trigger] s[i])
}

/// The number that the digits of `s` denote in base ten, most significant
/// digit first. The empty sequence denotes zero.
pub open spec fn digits_value(s: Seq<u8>) -> nat
    recommends
        all_digits(s),
    decreases s.len(),
{
    if s.len() == 0 {
        0
    } else {
        (digits_value(s.drop_last()) * 10 + (s.last() - 0x30)) as nat
    }
}

/// The value of `s` when it is a non-empty run of digits that denotes at
/// most `limit`.
pub open spec fn bounded_value(s: Seq<u8>, limit: nat) -> Option<nat> {
    if s.len() > 0 && all_digits(s) && digits_value(s) <= limit {
        Some(digits_value(s))
    } else {
        None
    }
}

/// Reading of an unsigned decimal number: an optional `+`, then at least one
/// digit, nothing else, and a value of at most `max`.
pub open spec fn parse_unsigned(s: Seq<u8>, max: nat) -> Option<nat> {
    if s.len() > 0 && s[0] == 0x2b {
        bounded_value(s.skip(1), max)
    } else {
        bounded_value(s, max)
    }
}

/// Reading of a signed decimal number: an optional `+` or `-`, then at least
/// one digit, nothing else, and a value between `min` and `max`.
pub open spec fn parse_signed(s: Seq<u8>, min: int, max: int) -> Option<int>
    recommends
        min <= 0 <= max,
{
    if s.len() > 0 && s[0] == 0x2d {
        match bounded_value(s.skip(1), (-min) as nat) {
            Some(v) => Some(-(v as int)),
            None => None,
        }
    } else {
        match parse_unsigned(s, max as nat) {
            Some(v) => Some(v as int),
            None => None,
        }
    }
}

pub open spec fn parse_u8_spec(s: Seq<u8>) -> Option<u8> {
    match parse_unsigned(s, 0xff) {
        Some(v) => Some(v as u8),
        None => None,
    }
}

pub open spec fn parse_u32_spec(s: Seq<u8>) -> Option<u32> {
    match parse_unsigned(s, 0xffff_ffff) {
        Some(v) => Some(v as u32),
        None => None,
    }
}

pub open spec fn parse_u64_spec(s: Seq<u8>) -> Option<u64> {
    match parse_unsigned(s, 0xffff_ffff_ffff_ffff) {
        Some(v) => Some(v as u64),
        None => None,
    }
}

pub open spec fn parse_i32_spec(s: Seq<u8>) -> Option<i32> {
    match parse_signed(s, -0x8000_0000, 0x7fff_ffff) {
        Some(v) => Some(v as i32),
        None => None,
    }
}

/// A longer run of digits never denotes less than one of its prefixes.
pub proof fn lemma_prefix_value_le(s: Seq<u8>, k: int)
    requires
        all_digits(s),
        0 <= k <= s.len(),
    ensures
        digits_value(s.take(k)) <= digits_value(s),
    decreases s.len() - k,
{
    if k == s.len() {
        assert(s.take(k) =~= s);
    } else {
        lemma_prefix_value_le(s.drop_last(), k);
        assert(s.drop_last().take(k) =~= s.take(k));
    }
}

/// Reads the digits of `s` from `start` on, refusing anything that is not a
/// non-empty run of digits with a value of at most `limit`.
fn read_digits(s: &[u8], start: usize, limit: u64) -> (r: Option<u64>)
    requires
        start <= s.len(),
    ensures
        r matches Some(v) ==> bounded_value(s@.skip(start as int), limit as nat) == Some(v as nat),
        r is None ==> bounded_value(s@.skip(start as int), limit as nat) is None,
{
    let ghost body = s@.skip(start as int);
    if start == s.len() {
        return None;
    }
    let mut acc: u64 = 0;
    let mut i: usize = start;
    while i < s.len()
        invariant
            start <= i <= s.len(),
            body == s@.skip(start as int),
            all_digits(body.take(i - start)),
            acc == digits_value(body.take(i - start)),
            acc <= limit,
        decreases s.len() - i,
    {
        let b: u8 = s[i];
        let ghost k: int = i - start;
        assert(body[k] == b);
        if b < 0x30 || b > 0x39 {
            return None;
        }
        let d: u64 = (b - 0x30) as u64;
        proof {
            assert(body.take(k + 1).drop_last() =~= body.take(k));
            assert(body.take(k + 1).last() == b);
            assert forall|j: int| 0 <= j < k + 1 implies is_digit(#[trigger] body.take(k + 1)[j]) by {
                if j < k {
                    assert(body.take(k)[j] == body[j]);
                }
            }
        }
        if d > limit || acc > (limit - d) / 10 {
            proof {
                if all_digits(body) {
                    lemma_prefix_value_le(body, k + 1);
                }
            }
            return None;
        }
        acc = acc * 10 + d;
        i = i + 1;
    }
    assert(body.take(i - start) =~= body);
    Some(acc)
}

/// Reads an unsigned decimal number of at most `max`.
fn read_unsigned(s: &[u8], max: u64) -> (r: Option<u64>)
    ensures
        r matches Some(v) ==> parse_unsigned(s@, max as nat) == Some(v as nat),
        r is None ==> parse_unsigned(s@, max as nat) is None,
{
    if s.len() > 0 && s[0] == 0x2b {
        read_digits(s, 1, max)
    } else {
        assert(s@.skip(0) =~= s@);
        read_digits(s, 0, max)
    }
}

/// Reads a `u8` as `str::parse` does: an optional `+`, digits, no blanks.
pub fn parse_u8(s: &[u8]) -> (r: Option<u8>)
    ensures
        r == parse_u8_spec(s@),
{
    match read_unsigned(s, 0xff) {
        Some(v) => Some(v as u8),
        None => None,
    }
}

/// Reads a `u32` as `str::parse` does: an optional `+`, digits, no blanks.
pub fn parse_u32(s: &[u8]) -> (r: Option<u32>)
    ensures
        r == parse_u32_spec(s@),
{
    match read_unsigned(s, 0xffff_ffff) {
        Some(v) => Some(v as u32),
        None => None,
    }
}

/// Reads a `u64` as `str::parse` does: an optional `+`, digits, no blanks.
pub fn parse_u64(s: &[u8]) -> (r: Option<u64>)
    ensures
        r == parse_u64_spec(s@),
{
    read_unsigned(s, 0xffff_ffff_ffff_ffff)
}

/// Reads an `i32` as `str::parse` does: an optional `+` or `-`, digits, no
/// blanks.
pub fn parse_i32(s: &[u8]) -> (r: Option<i32>)
    ensures
        r == parse_i32_spec(s@),
{
    if s.len() > 0 && s[0] == 0x2d {
        match read_digits(s, 1, 0x8000_0000) {
            Some(v) => {
                let w: i64 = -(v as i64);
                Some(w as i32)
            },
            None => None,
        }
    } else {
        match read_unsigned(s, 0x7fff_ffff) {
            Some(v) => Some(v as i32),
            None => None,
        }
    }
}

/// The digits of `n` in base ten, most significant first, without leading
/// zeros.
pub open spec fn decimal_digits(n: nat) -> Seq<u8>
    decreases n,
{
    if n < 10 {
        seq![(0x30 + n) as u8]
    } else {
        decimal_digits(n / 10).push((0x30 + n % 10) as u8)
    }
}

/// The shortest decimal form of `v`: a `-` for a negative number, then the
/// digits.
pub open spec fn decimal_text(v: int) -> Seq<u8> {
    if v < 0 {
        seq![0x2du8] + decimal_digits((-v) as nat)
    } else {
        decimal_digits(v as nat)
    }
}

/// What `decimal_digits` writes is a non-empty run of digits that denotes
/// the number it was given.
pub proof fn lemma_decimal_digits(n: nat)
    ensures
        decimal_digits(n).len() > 0,
        all_digits(decimal_digits(n)),
        digits_value(decimal_digits(n)) == n,
    decreases n,
{
    if n >= 10 {
        lemma_decimal_digits(n / 10);
        let front = decimal_digits(n / 10);
        let whole = decimal_digits(n);
        assert(whole.drop_last() =~= front);
        assert forall|i: int| 0 <= i < whole.len() implies is_digit(#[trigger] whole[i]) by {
            if i < front.len() {
                assert(whole[i] == front[i]);
            }
        }
        assert(whole.last() == 0x30 + n % 10);
        assert(digits_value(whole) == digits_value(front) * 10 + n % 10);
    } else {
        let whole = decimal_digits(n);
        assert(whole.drop_last() =~= Seq::<u8>::empty());
        assert(whole.last() == 0x30 + n);
        assert(digits_value(whole.drop_last()) == 0);
    }
}

/// Reading what was written gives the number back.
pub proof fn lemma_parse_unsigned_of_decimal(n: nat, max: nat)
    requires
        n <= max,
    ensures
        parse_unsigned(decimal_digits(n), max) == Some(n),
{
    lemma_decimal_digits(n);
}

/// Reading what was written gives the number back, sign included.
pub proof fn lemma_parse_signed_of_decimal(v: int, min: int, max: int)
    requires
        min <= 0 <= max,
        min <= v <= max,
    ensures
        parse_signed(decimal_text(v), min, max) == Some(v),
{
    if v < 0 {
        lemma_decimal_digits((-v) as nat);
        assert(decimal_text(v).skip(1) =~= decimal_digits((-v) as nat));
    } else {
        lemma_decimal_digits(v as nat);
    }
}

/// The one-character string for a digit.
fn digit_text(d: u8) -> (r: &'static str)
    requires
        d < 10,
    ensures
        encode_utf8(r@) == seq![(0x30 + d) as u8],
{
    let r = if d == 0 {
        "0"
    } else if d == 1 {
        "1"
    } else if d == 2 {
        "2"
    } else if d == 3 {
        "3"
    } else if d == 4 {
        "4"
    } else if d == 5 {
        "5"
    } else if d == 6 {
        "6"
    } else if d == 7 {
        "7"
    } else if d == 8 {
        "8"
    } else {
        "9"
    };
    proof {
        reveal_strlit("0");
        reveal_strlit("1");
        reveal_strlit("2");
        reveal_strlit("3");
        reveal_strlit("4");
        reveal_strlit("5");
        reveal_strlit("6");
        reveal_strlit("7");
        reveal_strlit("8");
        reveal_strlit("9");
        is_ascii_chars_encode_utf8(r@);
        assert(encode_utf8(r@) =~= seq![(0x30 + d) as u8]);
    }
    r
}

/// Appends the decimal form of `n` to `out`.
pub fn push_unsigned(out: &mut String, n: u64)
    ensures
        encode_utf8(final(out)@) == encode_utf8(old(out)@) + decimal_digits(n as nat),
    decreases n,
{
    if n >= 10 {
        push_unsigned(out, n / 10);
    }
    let d: u8 = (n % 10) as u8;
    push_text(out, digit_text(d));
    proof {
        let before = encode_utf8(old(out)@);
        if n >= 10 {
            assert(before + decimal_digits((n / 10) as nat) + seq![(0x30 + d) as u8] =~= before
                + decimal_digits(n as nat));
        }
    }
}

/// Appends the decimal form of `v` to `out`, with a `-` when `v` is negative.
pub fn push_signed(out: &mut String, v: i64)
    ensures
        encode_utf8(final(out)@) == encode_utf8(old(out)@) + decimal_text(v as int),
{
    if v < 0 {
        push_text(out, "-");
        proof {
            reveal_strlit("-");
            is_ascii_chars_encode_utf8("-"@);
            assert(encode_utf8("-"@) =~= seq![0x2du8]);
        }
        let magnitude: u64 = if v == i64::MIN {
            0x8000_0000_0000_0000u64
        } else {
            (-v) as u64
        };
        push_unsigned(out, magnitude);
        proof {
            let before = encode_utf8(old(out)@);
            assert(before + seq![0x2du8] + decimal_digits(magnitude as nat) =~= before
                + decimal_text(v as int));
        }
    } else {
        push_unsigned(out, v as u64);
    }
}

} // verus!
