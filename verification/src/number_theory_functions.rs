//! Number theory on machine integers.
//!
//! The recursive exponentiation here works on `i32` and lets its products
//! wrap around silently. It agrees with the mathematical power only while
//! no product leaves the range of `i32`; the arbitrary-precision engine is
//! the one to use for real key material.

use crate::modular_power::magnitude;
use vstd::arithmetic::div_mod::{lemma_mod_bound, lemma_mul_mod_noop_general, lemma_small_mod};
use vstd::arithmetic::power::{
    lemma_pow1,
    lemma_pow_adds,
    lemma_pow_multiplies,
    lemma_square_is_pow2,
    pow,
};
use vstd::prelude::*;
use vstd::wrapping::i32_specs::wrapping_mul;

verus! {

/// Quotient of the division that rounds toward zero.
pub open spec fn truncated_quotient(value: int, divisor: int) -> int {
    if value >= 0 {
        value / divisor
    } else {
        -((-value) / divisor)
    }
}

/// Remainder of the division that rounds toward zero; it carries the sign of
/// `value`.
pub open spec fn truncated_remainder(value: int, divisor: int) -> int {
    if value >= 0 {
        value % divisor
    } else {
        -((-value) % divisor)
    }
}

/// What the recursive exponentiation on `i32` returns.
///
/// Exponent zero gives one and exponent one gives the base, both unreduced.
/// Every other exponent is halved toward zero; the result for the half is
/// squared, multiplied by the base once more where the exponent is positive
/// and odd, and reduced with the truncating remainder. The products wrap
/// around in `i32`.
pub open spec fn wrapping_power(base: i32, exponent: i32, modul: i32) -> i32
    decreases magnitude(exponent as int),
{
    if exponent == 0 {
        1
    } else if exponent == 1 {
        base
    } else {
        let root = wrapping_power(base, truncated_quotient(exponent as int, 2) as i32, modul);
        let square = wrapping_mul(root, root);
        if truncated_remainder(exponent as int, 2) == 1 {
            truncated_remainder(wrapping_mul(square, base) as int, modul as int) as i32
        } else {
            truncated_remainder(square as int, modul as int) as i32
        }
    }
}

/// A square that wrapped around is never the least `i32`.
proof fn lemma_wrapped_square_above_least(value: i32)
    ensures
        wrapping_mul(value, value) != i32::MIN,
{
    assert((value * value) % 0x1_0000_0000 != 0x8000_0000) by (bit_vector);
}

/// A cube that wrapped around is never the least `i32`.
proof fn lemma_wrapped_cube_above_least(value: i32)
    ensures
        wrapping_mul(wrapping_mul(value, value), value) != i32::MIN,
{
    assert((((value * value) % 0x1_0000_0000) * value) % 0x1_0000_0000 != 0x8000_0000)
        by (bit_vector);
    assert((((value * value) % 0x1_0000_0000 - 0x1_0000_0000) * value) % 0x1_0000_0000
        != 0x8000_0000) by (bit_vector);
}

/// Under the modulus minus one every intermediate result is zero or the
/// base itself, so that no remainder is taken of the least `i32`.
proof fn lemma_wrapping_power_under_minus_one(base: i32, exponent: i32)
    ensures
        wrapping_power(base, exponent, -1i32) == (if exponent == 0 {
            1i32
        } else if exponent == 1 {
            base
        } else {
            0i32
        }),
{
    if exponent != 0 && exponent != 1 {
        let half = truncated_quotient(exponent as int, 2) as i32;
        let root = wrapping_power(base, half, -1i32);
        let square = wrapping_mul(root, root);
        let product = wrapping_mul(square, base);
        assert(truncated_remainder(square as int, -1) == 0);
        assert(truncated_remainder(product as int, -1) == 0);
    }
}

/// Fast exponentiation by halving the exponent, on machine integers.
///
/// Returns `wrapping_power(base, exponent, modul)`: one for exponent zero,
/// the base for exponent one, and otherwise the square of the result for
/// half the exponent, times the base where the exponent is odd, reduced by
/// the modulus. Products wrap around silently. The modulus must not be zero
/// where a remainder is taken.
pub fn fast_exponentiation(base: i32, exponent: i32, modul: i32) -> (result: i32)
    requires
        exponent == 0 || exponent == 1 || modul != 0,
    ensures
        result == wrapping_power(base, exponent, modul),
    decreases magnitude(exponent as int),
{
    if exponent == 0 {
        return 1;
    }
    if exponent == 1 {
        return base;
    }
    let half: i32 = exponent / 2;
    let base_to_square: i32 = fast_exponentiation(base, half, modul);
    let square: i32 = base_to_square.wrapping_mul(base_to_square);
    proof {
        lemma_wrapped_square_above_least(base_to_square);
        if modul == -1 {
            lemma_wrapping_power_under_minus_one(base, half);
            if half == 1 {
                lemma_wrapped_cube_above_least(base);
            }
        }
    }
    return if exponent % 2 == 1 {
        square.wrapping_mul(base) % modul
    } else {
        square % modul
    };
}

/// While no product can leave the range of `i32`, the recursive
/// exponentiation returns the canonical residue of the power: for a base
/// that is not negative, a modulus above zero and an exponent of at least
/// two, with the cube of the base and the base times the square of the
/// modulus within `i32`.
pub proof fn lemma_wrapping_power_without_overflow(base: i32, exponent: i32, modul: i32)
    requires
        0 <= base,
        0 < modul,
        2 <= exponent,
        base * base * base <= i32::MAX,
        modul * modul <= i32::MAX,
        modul * modul * base <= i32::MAX,
    ensures
        wrapping_power(base, exponent, modul) == pow(base as int, exponent as nat) % (modul as int),
    decreases exponent,
{
    let half = truncated_quotient(exponent as int, 2) as i32;
    let root = wrapping_power(base, half, modul);
    let b = base as int;
    let m = modul as int;
    let h = half as nat;
    assert(half == exponent / 2);
    if half >= 2 {
        lemma_wrapping_power_without_overflow(base, half, modul);
    } else {
        lemma_pow1(b);
    }
    // The root is congruent to the power for half the exponent, and its
    // square, also times the base, stays within range.
    assert(root as int % m == pow(b, h) % m) by {
        if half >= 2 {
            lemma_mod_bound(pow(b, h), m);
            assert(root as int % m == root as int) by {
                lemma_small_mod(root as nat, m as nat);
            }
        }
    }
    let r = root as int;
    assert(0 <= r * r <= i32::MAX && 0 <= r * r * b <= i32::MAX) by {
        if half >= 2 {
            lemma_mod_bound(pow(b, h), m);
            assert(0 <= r * r <= m * m && 0 <= r * r * b <= m * m * b) by (nonlinear_arith)
                requires
                    0 <= r < m,
                    0 <= b,
            ;
        } else {
            assert(0 <= b * b <= b * b * b || b == 0) by (nonlinear_arith)
                requires
                    0 <= b,
            ;
        }
    }
    let square = wrapping_mul(root, root);
    assert(square == r * r);
    assert(pow(b, 2 * h) % m == (r * r) % m) by {
        lemma_square_is_pow2(pow(b, h));
        lemma_pow_multiplies(b, h, 2);
        lemma_square_is_pow2(r);
        assert(pow(b, h) * pow(b, h) == pow(pow(b, h), 2));
        lemma_mul_mod_noop_general(pow(b, h), pow(b, h), m);
        lemma_mul_mod_noop_general(r, r, m);
    }
    if exponent % 2 == 1 {
        assert(wrapping_mul(square, base) == r * r * b);
        assert(exponent == 2 * h + 1);
        assert(pow(b, exponent as nat) == pow(b, 2 * h) * b) by {
            lemma_pow_adds(b, 2 * h, 1);
            lemma_pow1(b);
        }
        lemma_mul_mod_noop_general(pow(b, 2 * h), b, m);
        lemma_mul_mod_noop_general(r * r, b, m);
    } else {
        assert(exponent == 2 * h);
    }
}

/// Entry point reserved for the extended Euclidean algorithm. It takes
/// nothing, returns nothing and has no effect.
pub fn expanded_euclidean_algorithm() {
}

} // verus!
