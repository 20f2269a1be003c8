//! Decimal fields of a release tag, read from raw bytes.

use vstd::prelude::*;

verus! {

/// The byte `0`, the smallest decimal digit.
pub const ZERO: u8 = 0x30;

/// The byte `9`, the largest decimal digit.
pub const NINE: u8 = 0x39;

/// `b` is one of the ten ASCII decimal digits.
pub open spec fn is_digit(b: u8) -> bool {
    ZERO <= b <= NINE
}

/// Every byte of `s` is a decimal digit.
pub open spec fn all_digits(s: Seq<u8>) -> bool {
    forall|i: int| 0 <= i < s.len() ==> is_digit(#[trigger] s[i])
}

/// The number that the digits of `s` write in base ten, most significant digit first.
pub open spec fn digits_value(s: Seq<u8>) -> nat
    decreases s.len(),
{
    if s.len() == 0 {
        0
    } else {
        10 * digits_value(s.drop_last()) + (s.last() - ZERO) as nat
    }
}

/// `s` is a non-empty run of decimal digits.
pub open spec fn is_numeric(s: Seq<u8>) -> bool {
    s.len() > 0 && all_digits(s)
}

/// What a field of a tag stands for: its value when it is a non-empty run of digits that fits
/// in 32 bits, and nothing otherwise. Signs, blanks and separators are not part of a number.
pub open spec fn parse_u32(s: Seq<u8>) -> Option<u32> {
    if is_numeric(s) && digits_value(s) <= u32::MAX {
        Some(digits_value(s) as u32)
    } else {
        None
    }
}

/// A run of digits is worth at least as much as any of its prefixes.
pub proof fn lemma_prefix_value_le(s: Seq<u8>, n: int)
    requires
        0 <= n <= s.len(),
        all_digits(s),
    ensures
        digits_value(s.take(n)) <= digits_value(s),
    decreases s.len(),
{
    if n == s.len() {
        assert(s.take(n) =~= s);
    } else {
        let shorter = s.drop_last();
        assert(shorter.take(n) =~= s.take(n));
        lemma_prefix_value_le(shorter, n);
    }
}

/// Appending one digit multiplies the value by ten and adds the digit.
pub proof fn lemma_value_push(s: Seq<u8>, b: u8)
    requires
        is_digit(b),
    ensures
        digits_value(s.push(b)) == 10 * digits_value(s) + (b - ZERO),
{
    assert(s.push(b).drop_last() =~= s);
}

/// Reads the bytes of `bytes` from `start` up to `end` as one decimal field.
pub fn parse_field(bytes: &[u8], start: usize, end: usize) -> (r: Option<u32>)
    requires
        start <= end <= bytes@.len(),
    ensures
        r == parse_u32(bytes@.subrange(start as int, end as int)),
{
    let ghost field = bytes@.subrange(start as int, end as int);
    if start == end {
        return None;
    }
    let mut acc: u32 = 0;
    let mut i: usize = start;
    while i < end
        invariant
            start <= i <= end <= bytes@.len(),
            field == bytes@.subrange(start as int, end as int),
            all_digits(field.take(i - start)),
            acc == digits_value(field.take(i - start)),
        decreases end - i,
    {
        let b: u8 = bytes[i];
        assert(b == field[i - start]);
        if b < ZERO || b > NINE {
            return None;
        }
        let digit: u32 = (b - ZERO) as u32;
        proof {
            assert(field.take(i - start + 1) =~= field.take(i - start).push(b));
            lemma_value_push(field.take(i - start), b);
        }
        if acc > (u32::MAX - digit) / 10 {
            proof {
                if all_digits(field) {
                    lemma_prefix_value_le(field, i - start + 1);
                }
            }
            return None;
        }
        acc = acc * 10 + digit;
        i = i + 1;
    }
    assert(field.take(end - start) =~= field);
    Some(acc)
}

} // verus!
