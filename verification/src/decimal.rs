//! Unsigned numbers in decimal notation, as bytes.

use vstd::prelude::*;

verus! {

/// Whether `byte` is one of the ASCII digits `0` to `9`.
pub open spec fn is_digit(byte: u8) -> bool {
    48 <= byte <= 57
}

/// Whether every byte of `bytes` is an ASCII digit.
pub open spec fn all_digits(bytes: Seq<u8>) -> bool {
    forall|i: int| 0 <= i < bytes.len() ==> is_digit(#[trigger] bytes[i])
}

/// The number that the digits `bytes` spell, the most significant first.
pub open spec fn digits_value(bytes: Seq<u8>) -> int
    decreases bytes.len(),
{
    if bytes.len() == 0 {
        0
    } else {
        digits_value(bytes.drop_last()) * 10 + (bytes.last() - 48)
    }
}

/// `bytes` without a leading `+`.
pub open spec fn unsigned_part(bytes: Seq<u8>) -> Seq<u8> {
    if bytes.len() > 0 && bytes[0] == 43 {
        bytes.drop_first()
    } else {
        bytes
    }
}

/// The number that `bytes` spell: an optional `+`, then one or more digits
/// whose value fits in 32 bits. Anything else spells no number.
pub open spec fn decimal_u32(bytes: Seq<u8>) -> Option<u32> {
    let digits = unsigned_part(bytes);
    if digits.len() > 0 && all_digits(digits) && digits_value(digits) <= u32::MAX {
        Some(digits_value(digits) as u32)
    } else {
        None
    }
}

/// The digits of `n`, the most significant first and without leading zeros.
pub open spec fn decimal_digits(n: nat) -> Seq<u8>
    decreases n,
{
    if n < 10 {
        seq![(48 + n) as u8]
    } else {
        decimal_digits(n / 10).push((48 + n % 10) as u8)
    }
}

/// The digits of a prefix spell no more than the digits of the whole.
pub proof fn lemma_prefix_value(bytes: Seq<u8>, k: int)
    requires
        all_digits(bytes),
        0 <= k <= bytes.len(),
    ensures
        0 <= digits_value(bytes.take(k)) <= digits_value(bytes),
    decreases bytes.len(),
{
    if bytes.len() == 0 {
        assert(bytes.take(k) =~= bytes);
    } else if k == bytes.len() {
        assert(bytes.take(k) =~= bytes);
        lemma_prefix_value(bytes.drop_last(), k - 1);
        assert(bytes.drop_last().take(k - 1) =~= bytes.drop_last());
    } else {
        lemma_prefix_value(bytes.drop_last(), k);
        assert(bytes.drop_last().take(k) =~= bytes.take(k));
    }
}

/// The digits of a number are digits, start with no sign, and spell it.
pub proof fn lemma_decimal_digits(n: nat)
    ensures
        decimal_digits(n).len() > 0,
        all_digits(decimal_digits(n)),
        digits_value(decimal_digits(n)) == n,
        unsigned_part(decimal_digits(n)) == decimal_digits(n),
    decreases n,
{
    if n < 10 {
        let digits = decimal_digits(n);
        assert(digits.drop_last() =~= Seq::<u8>::empty());
        assert(digits_value(digits.drop_last()) == 0);
    } else {
        lemma_decimal_digits(n / 10);
        let head = decimal_digits(n / 10);
        let digits = decimal_digits(n);
        assert(digits.drop_last() =~= head);
        assert(digits[0] == head[0]);
    }
}

/// Writing a number down and reading it again gives the number back.
pub proof fn lemma_decimal_round_trip(n: u32)
    ensures
        decimal_u32(decimal_digits(n as nat)) == Some(n),
{
    lemma_decimal_digits(n as nat);
}

/// Reads `bytes` as a number in decimal notation.
pub fn parse_u32(bytes: &[u8]) -> (number: Option<u32>)
    ensures
        number == decimal_u32(bytes@),
{
    let start: usize = if bytes.len() > 0 && bytes[0] == 43 {
        1
    } else {
        0
    };
    let ghost digits = unsigned_part(bytes@);
    assert(digits =~= bytes@.skip(start as int));
    if start == bytes.len() {
        return None;
    }
    let mut value: u32 = 0;
    let mut i: usize = start;
    while i < bytes.len()
        invariant
            start <= i <= bytes.len(),
            digits == bytes@.skip(start as int),
            digits == unsigned_part(bytes@),
            all_digits(digits.take(i - start)),
            value == digits_value(digits.take(i - start)),
        decreases bytes.len() - i,
    {
        let byte = bytes[i];
        let ghost seen = digits.take(i - start);
        let ghost next = digits.take(i - start + 1);
        assert(next.drop_last() =~= seen);
        assert(next.last() == byte);
        if byte < 48 || byte > 57 {
            assert(!is_digit(digits[i - start]));
            return None;
        }
        let digit: u32 = (byte - 48) as u32;
        if value > (u32::MAX - digit) / 10 {
            proof {
                assert(digits_value(next) == value * 10 + digit);
                if all_digits(digits) {
                    lemma_prefix_value(digits, i - start + 1);
                }
            }
            return None;
        }
        value = value * 10 + digit;
        i = i + 1;
    }
    assert(digits.take(i - start) =~= digits);
    Some(value)
}

/// Writes `n` in decimal notation.
pub fn decimal_bytes(n: u32) -> (digits: Vec<u8>)
    ensures
        digits@ == decimal_digits(n as nat),
    decreases n,
{
    if n < 10 {
        let mut digits: Vec<u8> = Vec::new();
        digits.push((48 + n) as u8);
        assert(digits@ =~= seq![(48 + n) as u8]);
        digits
    } else {
        let mut digits = decimal_bytes(n / 10);
        digits.push((48 + n % 10) as u8);
        digits
    }
}

} // verus!
