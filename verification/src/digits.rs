//! Decimal numerals as byte strings: their value, printing, and parsing.
//!
//! `digits_val` gives the value of a run of ASCII digits, `digits_of` the
//! canonical numeral of a natural number, and `decimal_of` the signed form
//! with a leading `-`. The executable `push_decimal` and `parse_decimal` are
//! proved against these, and `lemma_parse_decimal_of` shows they are inverse,
//! which carries the integer case of the print/parse round trip.

use vstd::prelude::*;

use crate::ascii::{DIGIT_NINE, DIGIT_ZERO, MINUS, PLUS};

verus! {

pub open spec fn is_digit(b: u8) -> bool {
    DIGIT_ZERO <= b <= DIGIT_NINE
}

pub open spec fn all_digits(s: Seq<u8>) -> bool {
    forall|i: int| 0 <= i < s.len() ==> is_digit(#[trigger] s[i])
}

/// The value of a run of ASCII digits, most significant first.
pub open spec fn digits_val(s: Seq<u8>) -> int
    decreases s.len(),
{
    if s.len() == 0 {
        0
    } else {
        digits_val(s.drop_last()) * 10 + (s.last() - DIGIT_ZERO)
    }
}

/// The canonical numeral of a natural number: no sign, no leading zero
/// except for the single digit of zero itself.
pub open spec fn digits_of(n: nat) -> Seq<u8>
    decreases n,
{
    if n < 10 {
        seq![(DIGIT_ZERO + n) as u8]
    } else {
        digits_of(n / 10) + seq![(DIGIT_ZERO + n % 10) as u8]
    }
}

/// The canonical signed decimal numeral of an integer.
pub open spec fn decimal_of(n: int) -> Seq<u8> {
    if n < 0 {
        seq![MINUS] + digits_of((-n) as nat)
    } else {
        digits_of(n as nat)
    }
}

/// The digits of a numeral after an optional leading sign.
pub open spec fn unsigned_part(s: Seq<u8>) -> Seq<u8> {
    if s.len() > 0 && (s[0] == PLUS || s[0] == MINUS) {
        s.subrange(1, s.len() as int)
    } else {
        s
    }
}

/// What a signed 32-bit read of a numeral yields: the value when the form is
/// an optional sign followed by at least one digit and the value fits in
/// `i32`, and nothing otherwise. A numeral out of range is rejected, never
/// truncated.
pub open spec fn spec_parse_decimal(s: Seq<u8>) -> Option<i32> {
    let digits = unsigned_part(s);
    let signed = if s.len() > 0 && s[0] == MINUS {
        -digits_val(digits)
    } else {
        digits_val(digits)
    };
    if digits.len() == 0 || !all_digits(digits) {
        None
    } else if i32::MIN <= signed <= i32::MAX {
        Some(signed as i32)
    } else {
        None
    }
}

pub proof fn lemma_digits_val_nonneg(s: Seq<u8>)
    requires
        all_digits(s),
    ensures
        digits_val(s) >= 0,
    decreases s.len(),
{
    if s.len() > 0 {
        lemma_digits_val_nonneg(s.drop_last());
    }
}

/// Reading more digits never shrinks the value.
pub proof fn lemma_digits_val_prefix(s: Seq<u8>, i: int)
    requires
        all_digits(s),
        0 <= i <= s.len(),
    ensures
        digits_val(s.subrange(0, i)) <= digits_val(s),
    decreases s.len(),
{
    if i == s.len() {
        assert(s.subrange(0, i) =~= s);
    } else {
        lemma_digits_val_prefix(s.drop_last(), i);
        assert(s.drop_last().subrange(0, i) =~= s.subrange(0, i));
        lemma_digits_val_nonneg(s.drop_last());
    }
}

/// The canonical numeral of `n` is made of digits and reads back as `n`.
pub proof fn lemma_digits_of(n: nat)
    ensures
        all_digits(digits_of(n)),
        digits_of(n).len() >= 1,
        digits_val(digits_of(n)) == n,
    decreases n,
{
    if n < 10 {
        assert((DIGIT_ZERO + n) as u8 == DIGIT_ZERO + n);
        assert(digits_of(n).drop_last() =~= Seq::<u8>::empty());
        assert(digits_of(n).last() == (DIGIT_ZERO + n) as u8);
        assert(digits_val(digits_of(n)) == digits_val(Seq::<u8>::empty()) * 10 + (DIGIT_ZERO + n)
            - DIGIT_ZERO);
    } else {
        lemma_digits_of(n / 10);
        assert(digits_of(n).drop_last() =~= digits_of(n / 10));
        assert(digits_of(n).last() == (DIGIT_ZERO + n % 10) as u8);
        vstd::arithmetic::div_mod::lemma_fundamental_div_mod(n as int, 10);
    }
}

/// Printing then parsing a 32-bit integer gives it back.
pub proof fn lemma_parse_decimal_of(n: i32)
    ensures
        spec_parse_decimal(decimal_of(n as int)) == Some(n),
{
    if n < 0 {
        lemma_digits_of((-(n as int)) as nat);
        let s = decimal_of(n as int);
        assert(unsigned_part(s) =~= digits_of((-(n as int)) as nat));
    } else {
        lemma_digits_of(n as nat);
        let s = decimal_of(n as int);
        assert(s[0] != MINUS && s[0] != PLUS);
        assert(unsigned_part(s) =~= s);
    }
}

/// Append the canonical numeral of `n` to `out`.
pub fn push_digits(out: &mut Vec<u8>, n: u32)
    ensures
        final(out)@ == old(out)@ + digits_of(n as nat),
    decreases n,
{
    if n >= 10 {
        push_digits(out, n / 10);
    }
    out.push(DIGIT_ZERO + (n % 10) as u8);
    assert(out@ =~= old(out)@ + digits_of(n as nat));
}

/// Append the canonical signed numeral of `n` to `out`.
pub fn push_decimal(out: &mut Vec<u8>, n: i32)
    ensures
        final(out)@ == old(out)@ + decimal_of(n as int),
{
    if n < 0 {
        out.push(MINUS);
        let m: u32 = (-(n as i64)) as u32;
        push_digits(out, m);
        assert(out@ =~= old(out)@ + decimal_of(n as int));
    } else {
        push_digits(out, n as u32);
    }
}

/// Read a signed 32-bit decimal numeral, rejecting any other form and any
/// value that does not fit.
pub fn parse_decimal(s: &[u8]) -> (r: Option<i32>)
    ensures
        r == spec_parse_decimal(s@),
{
    let ghost digits = unsigned_part(s@);
    let negative = s.len() > 0 && s[0] == MINUS;
    let start: usize = if s.len() > 0 && (s[0] == PLUS || s[0] == MINUS) {
        1
    } else {
        0
    };
    assert(digits =~= s@.subrange(start as int, s@.len() as int));
    if start >= s.len() {
        return None;
    }
    let limit: u64 = if negative {
        0x8000_0000
    } else {
        0x7fff_ffff
    };
    let mut acc: u64 = 0;
    let mut i: usize = start;
    while i < s.len()
        invariant
            start <= i <= s.len(),
            start < s.len(),
            acc <= limit,
            limit == if negative {
                0x8000_0000u64
            } else {
                0x7fff_ffffu64
            },
            negative == (s@.len() > 0 && s@[0] == MINUS),
            start == if s@.len() > 0 && (s@[0] == PLUS || s@[0] == MINUS) {
                1int
            } else {
                0int
            },
            digits == unsigned_part(s@),
            digits =~= s@.subrange(start as int, s@.len() as int),
            all_digits(digits.subrange(0, i - start)),
            acc == digits_val(digits.subrange(0, i - start)),
        decreases s.len() - i,
    {
        let b = s[i];
        if !(DIGIT_ZERO <= b && b <= DIGIT_NINE) {
            assert(!is_digit(digits[i - start]));
            return None;
        }
        acc = acc * 10 + (b - DIGIT_ZERO) as u64;
        i += 1;
        assert(digits.subrange(0, i - start).drop_last() =~= digits.subrange(0, i - 1 - start));
        assert(digits.subrange(0, i - start).last() == b);
        if acc > limit {
            proof {
                if all_digits(digits) {
                    lemma_digits_val_prefix(digits, i - start);
                }
            }
            return None;
        }
    }
    assert(digits.subrange(0, i - start) =~= digits);
    if negative {
        Some((-(acc as i64)) as i32)
    } else {
        Some(acc as i32)
    }
}

} // verus!
