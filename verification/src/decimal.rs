//! Signed decimal integers from text.

use vstd::prelude::*;
use vstd::string::StringSliceAdditionalSpecFns;
use crate::error::ParseCause;

verus! {

/// An ASCII decimal digit.
pub open spec fn is_digit(c: u8) -> bool {
    0x30 <= c <= 0x39
}

/// Every byte is a decimal digit.
pub open spec fn all_digits(digits: Seq<u8>) -> bool {
    forall|i: int| 0 <= i < digits.len() ==> is_digit(#[trigger] digits[i])
}

/// The number that a run of digits denotes, most significant digit first.
pub open spec fn digits_value(digits: Seq<u8>) -> int
    decreases digits.len(),
{
    if digits.len() == 0 {
        0
    } else {
        digits_value(digits.drop_last()) * 10 + (digits.last() - 0x30)
    }
}

/// How many bytes the sign takes: one for a leading `+` or `-`, else none.
pub open spec fn sign_len(text: Seq<u8>) -> int {
    if text.len() > 0 && (text[0] == 0x2b || text[0] == 0x2d) {
        1
    } else {
        0
    }
}

/// The text is an optional sign followed by one or more decimal digits, and
/// nothing else: no blank, no underscore.
pub open spec fn is_decimal(text: Seq<u8>) -> bool {
    &&& text.len() > sign_len(text)
    &&& all_digits(text.skip(sign_len(text)))
}

/// The number that well-formed decimal text denotes.
pub open spec fn decimal_value(text: Seq<u8>) -> int {
    let magnitude = digits_value(text.skip(sign_len(text)));
    if text.len() > 0 && text[0] == 0x2d {
        -magnitude
    } else {
        magnitude
    }
}

/// What parsing makes of any text, for a field that holds `lo ..= hi`.
pub open spec fn parse_spec(text: Seq<u8>, lo: int, hi: int) -> Result<int, ParseCause> {
    if text.len() == 0 {
        Err(ParseCause::Empty)
    } else if !is_decimal(text) {
        Err(ParseCause::InvalidDigit)
    } else if lo <= decimal_value(text) <= hi {
        Ok(decimal_value(text))
    } else {
        Err(ParseCause::Overflow)
    }
}

/// A run of digits denotes no less than any of its prefixes.
proof fn lemma_prefix_value(digits: Seq<u8>, k: int)
    requires
        all_digits(digits),
        0 <= k <= digits.len(),
    ensures
        0 <= digits_value(digits.take(k)) <= digits_value(digits),
    decreases digits.len(),
{
    if digits.len() == 0 {
        assert(digits.take(k) =~= digits);
    } else if k == digits.len() {
        assert(digits.take(k) =~= digits);
        lemma_prefix_value(digits.drop_last(), k - 1);
        assert(is_digit(digits[digits.len() - 1]));
    } else {
        lemma_prefix_value(digits.drop_last(), k);
        assert(digits.drop_last().take(k) =~= digits.take(k));
        assert(is_digit(digits[digits.len() - 1]));
    }
}

/// Reads a 64-bit signed integer from decimal text.
pub fn parse_i64(text: &str) -> (res: Result<i64, ParseCause>)
    ensures
        match res {
            Ok(v) => parse_spec(text.spec_bytes(), i64::MIN as int, i64::MAX as int) == Ok::<
                int,
                ParseCause,
            >(v as int),
            Err(cause) => parse_spec(text.spec_bytes(), i64::MIN as int, i64::MAX as int) == Err::<
                int,
                ParseCause,
            >(cause),
        },
{
    let bytes = text.as_bytes();
    let n: usize = bytes.len();
    if n == 0 {
        return Err(ParseCause::Empty);
    }
    let negative: bool = bytes[0] == 0x2d;
    let start: usize = if bytes[0] == 0x2b || bytes[0] == 0x2d {
        1
    } else {
        0
    };
    if start == n {
        return Err(ParseCause::InvalidDigit);
    }
    let ghost digits = bytes@.skip(start as int);
    let mut i: usize = start;
    while i < n
        invariant
            start <= i <= n,
            n == bytes@.len(),
            bytes@ == text.spec_bytes(),
            start == sign_len(bytes@),
            digits == bytes@.skip(start as int),
            all_digits(digits.take(i - start)),
        decreases n - i,
    {
        if bytes[i] < 0x30 || bytes[i] > 0x39 {
            assert(!is_digit(digits[i - start]));
            return Err(ParseCause::InvalidDigit);
        }
        assert forall|j: int| 0 <= j < i + 1 - start implies is_digit(
            #[trigger] digits.take(i + 1 - start)[j],
        ) by {
            if j < i - start {
                assert(digits.take(i - start)[j] == digits[j]);
            }
        }
        i += 1;
    }
    assert(digits.take(n - start) =~= digits);
    let limit: i128 = 0x8000_0000_0000_0000;
    let mut magnitude: i128 = 0;
    let mut k: usize = start;
    while k < n
        invariant
            start <= k <= n,
            n == bytes@.len(),
            bytes@ == text.spec_bytes(),
            start == sign_len(bytes@),
            start < n,
            digits == bytes@.skip(start as int),
            all_digits(digits),
            limit == 0x8000_0000_0000_0000,
            0 <= magnitude <= limit,
            magnitude == digits_value(digits.take(k - start)),
        decreases n - k,
    {
        assert(is_digit(digits[k - start]));
        let d: i128 = (bytes[k] - 0x30) as i128;
        proof {
            assert(digits.take(k + 1 - start).drop_last() =~= digits.take(k - start));
            lemma_prefix_value(digits, k + 1 - start);
        }
        magnitude = magnitude * 10 + d;
        if magnitude > limit {
            return Err(ParseCause::Overflow);
        }
        k += 1;
    }
    assert(digits.take(n - start) =~= digits);
    if negative {
        Ok((-magnitude) as i64)
    } else if magnitude == limit {
        Err(ParseCause::Overflow)
    } else {
        Ok(magnitude as i64)
    }
}

/// Reads a 32-bit signed integer from decimal text.
pub fn parse_i32(text: &str) -> (res: Result<i32, ParseCause>)
    ensures
        match res {
            Ok(v) => parse_spec(text.spec_bytes(), i32::MIN as int, i32::MAX as int) == Ok::<
                int,
                ParseCause,
            >(v as int),
            Err(cause) => parse_spec(text.spec_bytes(), i32::MIN as int, i32::MAX as int) == Err::<
                int,
                ParseCause,
            >(cause),
        },
{
    match parse_i64(text) {
        Ok(v) => if v < -0x8000_0000 || v > 0x7fff_ffff {
            Err(ParseCause::Overflow)
        } else {
            Ok(v as i32)
        },
        Err(cause) => Err(cause),
    }
}

} // verus!
