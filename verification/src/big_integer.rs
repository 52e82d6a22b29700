//! Arbitrary-precision signed integers.
//!
//! A [`BigInteger`] keeps its value as a little-endian two's-complement byte
//! string, the interchange form of `num_bigint`'s `BigInt`. Its view is the
//! mathematical integer that the bytes denote. The cheap predicates are
//! computed on the bytes directly; multiplication, division and modular
//! exponentiation are carried out by `num`, reading and writing of decimal
//! text by the `num_bigint` that `bigdecimal` hands on.
//!
//! Every call into those crates goes through `BigInt::from_signed_bytes_le`
//! and `BigInt::to_signed_bytes_le`. All of them rest on one assumption:
//! the first reads from a byte string the integer that [`signed_le_value`]
//! gives it, and the second writes a byte string that denotes the integer
//! it is given.

use num::traits::Euclid;
use num::BigInt;
use std::str::FromStr;
use vstd::arithmetic::div_mod::lemma_mod_multiples_vanish;
use vstd::arithmetic::power::pow;
use vstd::prelude::*;

verus! {

/// The integer denoted by a little-endian two's-complement byte string.
///
/// The empty string denotes zero; otherwise the top bit of the last byte is
/// the sign bit.
pub open spec fn signed_le_value(bytes: Seq<u8>) -> int
    decreases bytes.len(),
{
    if bytes.len() == 0 {
        0
    } else if bytes.len() == 1 {
        if bytes[0] >= 128 {
            bytes[0] - 256
        } else {
            bytes[0] as int
        }
    } else {
        bytes[0] + 256 * signed_le_value(bytes.skip(1))
    }
}

/// Whether every byte of the string is zero.
pub open spec fn all_zero(bytes: Seq<u8>) -> bool {
    forall|i: int| 0 <= i < bytes.len() ==> bytes[i] == 0
}

/// A byte string denotes zero exactly when all its bytes are zero.
pub proof fn lemma_value_zero(bytes: Seq<u8>)
    ensures
        signed_le_value(bytes) == 0 <==> all_zero(bytes),
    decreases bytes.len(),
{
    if bytes.len() >= 2 {
        let rest = bytes.skip(1);
        lemma_value_zero(rest);
        if all_zero(bytes) {
            assert forall|i: int| 0 <= i < rest.len() implies rest[i] == 0 by {
                assert(rest[i] == bytes[i + 1]);
            }
        }
        if signed_le_value(bytes) == 0 {
            assert(bytes[0] == 0 && signed_le_value(rest) == 0);
            assert forall|i: int| 0 <= i < bytes.len() implies bytes[i] == 0 by {
                if i > 0 {
                    assert(rest[i - 1] == bytes[i]);
                }
            }
        }
    }
}

/// A byte string denotes a negative integer exactly when it is non-empty and
/// the sign bit of its last byte is set.
pub proof fn lemma_value_sign(bytes: Seq<u8>)
    ensures
        signed_le_value(bytes) < 0 <==> bytes.len() > 0 && bytes.last() >= 128,
    decreases bytes.len(),
{
    if bytes.len() >= 2 {
        let rest = bytes.skip(1);
        lemma_value_sign(rest);
        assert(rest.last() == bytes.last());
    }
}

/// The parity of the denoted integer is the parity of the first byte.
pub proof fn lemma_value_parity(bytes: Seq<u8>)
    ensures
        signed_le_value(bytes) % 2 == (if bytes.len() == 0 {
            0int
        } else {
            bytes[0] as int % 2
        }),
{
    if bytes.len() >= 1 {
        let low = bytes[0] as int;
        let high = if bytes.len() == 1 {
            if bytes[0] >= 128 {
                -1int
            } else {
                0int
            }
        } else {
            signed_le_value(bytes.skip(1))
        };
        assert(signed_le_value(bytes) == 2 * (128 * high) + low);
        lemma_mod_multiples_vanish(128 * high, low, 2);
    }
}

/// A signed integer of any size.
#[derive(Debug)]
pub struct BigInteger {
    /// Little-endian two's-complement bytes of the value.
    pub bytes: Vec<u8>,
}

impl View for BigInteger {
    type V = int;

    open spec fn view(&self) -> int {
        signed_le_value(self.bytes@)
    }
}

impl Clone for BigInteger {
    fn clone(&self) -> (copy: Self)
        ensures
            copy.bytes@ == self.bytes@,
            copy@ == self@,
    {
        BigInteger { bytes: self.bytes.clone() }
    }
}

impl BigInteger {
    /// The integer whose two's-complement bytes, least significant first,
    /// are `bytes`.
    pub fn from_signed_bytes_le(bytes: Vec<u8>) -> (number: BigInteger)
        ensures
            number.bytes@ == bytes@,
            number@ == signed_le_value(bytes@),
    {
        BigInteger { bytes }
    }

    /// The bytes that `self` holds, least significant first.
    pub fn to_signed_bytes_le(&self) -> (bytes: Vec<u8>)
        ensures
            bytes@ == self.bytes@,
            signed_le_value(bytes@) == self@,
    {
        self.bytes.clone()
    }

    pub fn zero() -> (number: BigInteger)
        ensures
            number@ == 0,
    {
        BigInteger { bytes: Vec::new() }
    }

    pub fn one() -> (number: BigInteger)
        ensures
            number@ == 1,
    {
        let mut bytes: Vec<u8> = Vec::new();
        bytes.push(1u8);
        BigInteger { bytes }
    }

    pub fn is_zero(&self) -> (answer: bool)
        ensures
            answer == (self@ == 0),
    {
        let mut index: usize = 0;
        while index < self.bytes.len()
            invariant
                index <= self.bytes.len(),
                forall|i: int| 0 <= i < index ==> self.bytes@[i] == 0,
            decreases self.bytes.len() - index,
        {
            if self.bytes[index] != 0 {
                proof {
                    lemma_value_zero(self.bytes@);
                }
                return false;
            }
            index += 1;
        }
        proof {
            lemma_value_zero(self.bytes@);
        }
        true
    }

    pub fn is_one(&self) -> (answer: bool)
        ensures
            answer == (self@ == 1),
    {
        if self.bytes.len() == 0 || self.bytes[0] != 1 {
            return false;
        }
        let mut index: usize = 1;
        while index < self.bytes.len()
            invariant
                1 <= index <= self.bytes.len(),
                forall|i: int| 1 <= i < index ==> self.bytes@[i] == 0,
            decreases self.bytes.len() - index,
        {
            if self.bytes[index] != 0 {
                proof {
                    lemma_value_zero(self.bytes@.skip(1));
                    assert(self.bytes@.skip(1)[index - 1] == self.bytes@[index as int]);
                }
                return false;
            }
            index += 1;
        }
        proof {
            let rest = self.bytes@.skip(1);
            lemma_value_zero(rest);
            assert forall|i: int| 0 <= i < rest.len() implies rest[i] == 0 by {
                assert(rest[i] == self.bytes@[i + 1]);
            }
        }
        true
    }

    pub fn is_odd(&self) -> (answer: bool)
        ensures
            answer == (self@ % 2 == 1),
    {
        proof {
            lemma_value_parity(self.bytes@);
        }
        self.bytes.len() > 0 && self.bytes[0] % 2 == 1
    }

    pub fn is_negative(&self) -> (answer: bool)
        ensures
            answer == (self@ < 0),
    {
        proof {
            lemma_value_sign(self.bytes@);
        }
        self.bytes.len() > 0 && self.bytes[self.bytes.len() - 1] >= 128
    }
}

/// Floored remainder: the representative of `value` modulo `modulus` that
/// carries the sign of `modulus`. For a positive modulus it lies in
/// `[0, modulus)`, for a negative one in `(modulus, 0]`.
pub open spec fn floored_remainder(value: int, modulus: int) -> int {
    if modulus > 0 {
        value % modulus
    } else {
        -((-value) % (-modulus))
    }
}

/// Quotient of a division by two that rounds toward zero.
pub open spec fn truncated_half(value: int) -> int {
    if value >= 0 {
        value / 2
    } else {
        -((-value) / 2)
    }
}

/// The integer that `num_bigint` reads from a decimal text, `None` where it
/// rejects the text.
pub uninterp spec fn decimal_value(text: Seq<char>) -> Option<int>;

/// The character of a decimal digit.
pub open spec fn decimal_digit(digit: int) -> char {
    seq!['0', '1', '2', '3', '4', '5', '6', '7', '8', '9'][digit]
}

/// The decimal digits of a natural number, most significant first and
/// without leading zeros; zero is written as one digit.
pub open spec fn decimal_digits(value: nat) -> Seq<char>
    decreases value,
{
    if value < 10 {
        seq![decimal_digit(value as int)]
    } else {
        decimal_digits(value / 10).push(decimal_digit(value as int % 10))
    }
}

/// An integer in decimal: its digits, after a minus sign where it is
/// negative.
pub open spec fn decimal_text(value: int) -> Seq<char> {
    if value < 0 {
        seq!['-'] + decimal_digits((-value) as nat)
    } else {
        decimal_digits(value as nat)
    }
}

impl BigInteger {
    /// Product of two integers, computed by `num`'s `Mul` for `BigInt`.
    ///
    /// Trusted: the bytes are read and written as two's complement, least
    /// significant first, and the product is the exact integer product.
    #[verifier::external_body]
    pub(crate) fn multiply(&self, other: &BigInteger) -> (product: BigInteger)
        ensures
            product@ == self@ * other@,
    {
        let left = BigInt::from_signed_bytes_le(&self.bytes);
        let right = BigInt::from_signed_bytes_le(&other.bytes);
        BigInteger { bytes: (left * right).to_signed_bytes_le() }
    }

    /// Euclidean remainder, computed by `num`'s `Euclid::rem_euclid` for
    /// `BigInt`.
    ///
    /// Trusted: for a non-zero divisor the result is the remainder in
    /// `[0, |modulus|)`; a zero divisor, on which `num` panics, is excluded.
    #[verifier::external_body]
    pub(crate) fn rem_euclid(&self, modulus: &BigInteger) -> (remainder: BigInteger)
        requires
            modulus@ != 0,
        ensures
            remainder@ == self@ % modulus@,
    {
        let value = BigInt::from_signed_bytes_le(&self.bytes);
        let divisor = BigInt::from_signed_bytes_le(&modulus.bytes);
        BigInteger { bytes: value.rem_euclid(&divisor).to_signed_bytes_le() }
    }

    /// Halves the value in place, with `num`'s `Div<u32>` for `BigInt`.
    ///
    /// Trusted: the quotient keeps the sign and halves the magnitude,
    /// discarding the remainder.
    #[verifier::external_body]
    pub(crate) fn half_assign(&mut self)
        ensures
            final(self)@ == truncated_half(old(self)@),
    {
        let value = BigInt::from_signed_bytes_le(&self.bytes);
        self.bytes = (value / 2u32).to_signed_bytes_le();
    }

    /// Modular power, computed by `num`'s `BigInt::modpow`.
    ///
    /// Trusted: the result is the power reduced with the rounding of a
    /// floored division, so that it follows the sign of the modulus. A
    /// negative exponent and a zero modulus, on which `num` panics, are
    /// excluded.
    #[verifier::external_body]
    pub(crate) fn modpow(&self, exponent: &BigInteger, modulus: &BigInteger) -> (power: BigInteger)
        requires
            exponent@ >= 0,
            modulus@ != 0,
        ensures
            power@ == floored_remainder(pow(self@, exponent@ as nat), modulus@),
    {
        let base = BigInt::from_signed_bytes_le(&self.bytes);
        let exponent = BigInt::from_signed_bytes_le(&exponent.bytes);
        let modulus = BigInt::from_signed_bytes_le(&modulus.bytes);
        BigInteger { bytes: base.modpow(&exponent, &modulus).to_signed_bytes_le() }
    }

    /// Reads a decimal text with `num_bigint`'s `FromStr` for `BigInt`.
    ///
    /// Trusted: whether the text is accepted and the integer read depend on
    /// the text alone.
    #[verifier::external_body]
    pub(crate) fn parse_decimal(text: &str) -> (parsed: Option<BigInteger>)
        ensures
            match parsed {
                Some(number) => decimal_value(text@) == Some(number@),
                None => decimal_value(text@) is None,
            },
    {
        match bigdecimal::num_bigint::BigInt::from_str(text) {
            Ok(value) => Some(BigInteger { bytes: value.to_signed_bytes_le() }),
            Err(_) => None,
        }
    }

    /// Writes the value in decimal with `num_bigint`'s
    /// `BigInt::to_str_radix`.
    ///
    /// Trusted: the text is the integer in radix ten, with a leading minus
    /// sign for a negative integer and no other padding.
    #[verifier::external_body]
    pub(crate) fn to_decimal(&self) -> (text: String)
        ensures
            text@ == decimal_text(self@),
    {
        bigdecimal::num_bigint::BigInt::from_signed_bytes_le(&self.bytes).to_str_radix(10)
    }
}

} // verus!
