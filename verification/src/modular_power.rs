//! What modular exponentiation computes, and the laws that hold of it.
//!
//! The two strategies of the engine are described by two spec functions. On
//! a positive modulus both are the canonical residue of the power; they part
//! only on a negative modulus, where the library primitive follows the sign
//! of the modulus and the iterative algorithm reduces into `[0, |modulus|)`.

use crate::big_integer::floored_remainder;
use vstd::arithmetic::div_mod::{
    lemma_fundamental_div_mod,
    lemma_fundamental_div_mod_converse_mod,
    lemma_mod_bound,
    lemma_mul_mod_noop_general,
    lemma_small_mod,
};
use vstd::arithmetic::mul::lemma_mul_is_associative;
use vstd::arithmetic::power::{
    lemma0_pow,
    lemma_pow0,
    lemma_pow1,
    lemma_pow_adds,
    lemma_pow_mod_noop,
    lemma_pow_multiplies,
    lemma_square_is_pow2,
    pow,
};
use vstd::prelude::*;

verus! {

/// Absolute value of an integer.
pub open spec fn magnitude(value: int) -> int {
    if value < 0 {
        -value
    } else {
        value
    }
}

/// Result of the library strategy: the power, reduced so that it follows the
/// sign of the modulus.
pub open spec fn library_power(base: int, exponent: nat, modulus: int) -> int {
    floored_remainder(pow(base, exponent), modulus)
}

/// Result of iterative square-and-multiply: zero for modulus one, one for
/// exponent zero, and otherwise the Euclidean remainder of the power.
pub open spec fn iterative_power(base: int, exponent: nat, modulus: int) -> int {
    if modulus == 1 {
        0
    } else if exponent == 0 {
        1
    } else {
        pow(base, exponent) % modulus
    }
}

/// Result of the strategy that the flag selects.
pub open spec fn modular_power(base: int, exponent: nat, modulus: int, use_fast: bool) -> int {
    if use_fast {
        library_power(base, exponent, modulus)
    } else {
        iterative_power(base, exponent, modulus)
    }
}

/// The Euclidean remainder does not depend on the sign of the divisor.
pub proof fn lemma_remainder_ignores_divisor_sign(value: int, modulus: int)
    requires
        modulus != 0,
    ensures
        value % modulus == value % magnitude(modulus),
{
    if modulus < 0 {
        let quotient = value / modulus;
        let remainder = value % modulus;
        lemma_fundamental_div_mod(value, modulus);
        assert(value == (-quotient) * (-modulus) + remainder) by (nonlinear_arith)
            requires
                value == modulus * quotient + remainder,
        ;
        lemma_fundamental_div_mod_converse_mod(value, -modulus, -quotient, remainder);
    }
}

/// One round of square-and-multiply keeps the product of the accumulator and
/// the remaining power in its residue class.
pub proof fn lemma_square_and_multiply_round(
    accumulator: int,
    base: int,
    exponent: nat,
    modulus: int,
)
    requires
        modulus > 0,
        exponent > 0,
    ensures
        ({
            let next_accumulator = if exponent % 2 == 1 {
                (accumulator * base) % modulus
            } else {
                accumulator
            };
            let next_base = (base * base) % modulus;
            (next_accumulator * pow(next_base, exponent / 2)) % modulus == (accumulator * pow(
                base,
                exponent,
            )) % modulus
        }),
{
    let half = exponent / 2;
    let squares = pow(base * base, half);
    let next_base = (base * base) % modulus;
    assert(pow(base, 2 * half) == squares) by {
        lemma_square_is_pow2(base);
        lemma_pow_multiplies(base, 2, half);
    }
    assert(pow(next_base, half) % modulus == squares % modulus) by {
        lemma_pow_mod_noop(base * base, half, modulus);
    }
    if exponent % 2 == 1 {
        let next_accumulator = (accumulator * base) % modulus;
        assert(pow(base, exponent) == base * squares) by {
            lemma_pow_adds(base, 1, 2 * half);
            lemma_pow1(base);
        }
        assert(accumulator * pow(base, exponent) == (accumulator * base) * squares) by {
            lemma_mul_is_associative(accumulator, base, squares);
        }
        lemma_mul_mod_noop_general(next_accumulator, pow(next_base, half), modulus);
        lemma_mul_mod_noop_general(accumulator * base, squares, modulus);
        lemma_mul_mod_noop_general(accumulator * base, squares % modulus, modulus);
    } else {
        assert(exponent == 2 * half);
        lemma_mul_mod_noop_general(accumulator, pow(next_base, half), modulus);
        lemma_mul_mod_noop_general(accumulator, squares, modulus);
    }
}

/// On every modulus greater than zero the two strategies agree: each
/// returns the Euclidean remainder of the power.
pub proof fn lemma_strategies_agree(base: int, exponent: nat, modulus: int)
    requires
        modulus > 0,
    ensures
        library_power(base, exponent, modulus) == iterative_power(base, exponent, modulus),
        modular_power(base, exponent, modulus, true) == pow(base, exponent) % modulus,
        modular_power(base, exponent, modulus, false) == pow(base, exponent) % modulus,
{
    if modulus == 1 {
        assert(pow(base, exponent) % 1 == 0);
    } else if exponent == 0 {
        lemma_pow0(base);
        lemma_small_mod(1, modulus as nat);
    }
}

/// The fixed points of either strategy: modulus one gives zero, exponent
/// zero gives one under a modulus above one, and base zero gives zero under
/// every exponent above zero.
pub proof fn lemma_edge_cases(base: int, exponent: nat, modulus: int, use_fast: bool)
    requires
        modulus != 0,
    ensures
        modulus == 1 ==> modular_power(base, exponent, modulus, use_fast) == 0,
        exponent == 0 && modulus > 1 ==> modular_power(base, exponent, modulus, use_fast) == 1,
        base == 0 && exponent > 0 ==> modular_power(base, exponent, modulus, use_fast) == 0,
{
    if modulus > 0 {
        lemma_strategies_agree(base, exponent, modulus);
    }
    if exponent == 0 && modulus > 1 {
        lemma_pow0(base);
        lemma_small_mod(1, modulus as nat);
    }
    if base == 0 && exponent > 0 {
        lemma0_pow(exponent);
        assert(0int % modulus == 0) by {
            lemma_remainder_ignores_divisor_sign(0, modulus);
            lemma_small_mod(0, magnitude(modulus) as nat);
        }
        assert(0int % (-modulus) == 0) by {
            lemma_remainder_ignores_divisor_sign(0, -modulus);
            lemma_small_mod(0, magnitude(modulus) as nat);
        }
    }
}

/// On a modulus greater than zero the result of either strategy is the
/// canonical residue: it lies in `[0, modulus)`.
pub proof fn lemma_result_is_canonical_residue(
    base: int,
    exponent: nat,
    modulus: int,
    use_fast: bool,
)
    requires
        modulus > 0,
    ensures
        0 <= modular_power(base, exponent, modulus, use_fast) < modulus,
{
    lemma_strategies_agree(base, exponent, modulus);
    lemma_mod_bound(pow(base, exponent), modulus);
}

/// Exponents add where results multiply: on a modulus greater than zero,
/// the result for the sum of two exponents is the product of the two
/// results, reduced once more.
pub proof fn lemma_exponents_add(
    base: int,
    first: nat,
    second: nat,
    modulus: int,
    use_fast: bool,
)
    requires
        modulus > 0,
    ensures
        modular_power(base, first + second, modulus, use_fast) == (modular_power(
            base,
            first,
            modulus,
            use_fast,
        ) * modular_power(base, second, modulus, use_fast)) % modulus,
{
    lemma_strategies_agree(base, first, modulus);
    lemma_strategies_agree(base, second, modulus);
    lemma_strategies_agree(base, first + second, modulus);
    lemma_pow_adds(base, first, second);
    lemma_mul_mod_noop_general(pow(base, first), pow(base, second), modulus);
}

} // verus!
