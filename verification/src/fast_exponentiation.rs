//! The modular exponentiation engine.

use crate::big_integer::BigInteger;
use crate::modular_power::{
    iterative_power,
    lemma_edge_cases,
    lemma_remainder_ignores_divisor_sign,
    lemma_square_and_multiply_round,
    lemma_strategies_agree,
    library_power,
    magnitude,
    modular_power,
};
use vstd::arithmetic::div_mod::{lemma_mod_bound, lemma_small_mod};
use vstd::arithmetic::power::{lemma_pow0, pow};
use vstd::prelude::*;

verus! {

/// Modular exponentiation with two interchangeable strategies.
pub struct FastExponentiation {}

impl FastExponentiation {
    /// Computes `base` to the power `exponent`, reduced by `modul`.
    ///
    /// With `use_fast` the library primitive does the work, without it the
    /// iterative square-and-multiply algorithm. For a modulus greater than
    /// zero both return the one integer in `[0, modul)` that is congruent to
    /// the power; modulus one gives zero, and exponent zero gives one
    /// reduced by the modulus.
    pub fn calculate(
        base: &BigInteger,
        exponent: &BigInteger,
        modul: &BigInteger,
        use_fast: bool,
    ) -> (result: BigInteger)
        requires
            exponent@ >= 0,
            modul@ != 0,
        ensures
            result@ == modular_power(base@, exponent@ as nat, modul@, use_fast),
            modul@ > 0 ==> result@ == pow(base@, exponent@ as nat) % modul@,
            modul@ > 0 ==> 0 <= result@ < modul@,
            modul@ == 1 ==> result@ == 0,
            exponent@ == 0 && modul@ > 1 ==> result@ == 1,
            base@ == 0 && exponent@ > 0 ==> result@ == 0,
    {
        proof {
            lemma_edge_cases(base@, exponent@ as nat, modul@, use_fast);
            if modul@ > 0 {
                lemma_strategies_agree(base@, exponent@ as nat, modul@);
                lemma_mod_bound(pow(base@, exponent@ as nat), modul@);
            }
        }
        return if use_fast {
            FastExponentiation::fast(base, exponent, modul)
        } else {
            FastExponentiation::own(base, exponent, modul)
        };
    }

    /// The library strategy.
    fn fast(base: &BigInteger, exponent: &BigInteger, modul: &BigInteger) -> (result: BigInteger)
        requires
            exponent@ >= 0,
            modul@ != 0,
        ensures
            result@ == library_power(base@, exponent@ as nat, modul@),
    {
        base.modpow(exponent, modul)
    }

    /// Right-to-left binary exponentiation: the exponent is consumed bit by
    /// bit, the working base is squared in every round and multiplied into
    /// the result on every set bit, each product reduced to its Euclidean
    /// remainder.
    fn own(base: &BigInteger, exponent: &BigInteger, modul: &BigInteger) -> (result: BigInteger)
        requires
            exponent@ >= 0,
            modul@ != 0,
        ensures
            result@ == iterative_power(base@, exponent@ as nat, modul@),
    {
        if modul.is_one() {
            return BigInteger::zero();
        }
        let ghost target = pow(base@, exponent@ as nat);
        let ghost size = magnitude(modul@);
        let mut result = BigInteger::one();
        let mut base = base.clone();
        let mut exp = exponent.clone();

        while !exp.is_zero()
            invariant
                modul@ != 0,
                size == magnitude(modul@),
                0 <= exp@ <= exponent@,
                (result@ * pow(base@, exp@ as nat)) % size == target % size,
                exponent@ == 0 ==> result@ == 1,
                exp@ > 0 || exponent@ == 0 || 0 <= result@ < size,
            decreases exp@,
        {
            proof {
                lemma_square_and_multiply_round(result@, base@, exp@ as nat, size);
                lemma_remainder_ignores_divisor_sign(result@ * base@, modul@);
                lemma_remainder_ignores_divisor_sign(base@ * base@, modul@);
                lemma_mod_bound(result@ * base@, size);
            }
            if exp.is_odd() {
                result = result.multiply(&base).rem_euclid(modul);
            }
            base = base.multiply(&base).rem_euclid(modul);
            exp.half_assign();
        }
        proof {
            lemma_pow0(base@);
            lemma_remainder_ignores_divisor_sign(target, modul@);
            if exponent@ != 0 {
                lemma_small_mod(result@ as nat, size as nat);
            }
        }
        result
    }
}

} // verus!
