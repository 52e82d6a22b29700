//! Why RSA works: under a key pair that key generation produced, decryption
//! undoes encryption and verification undoes signing.

use crate::modular_power::library_power;
use crate::primes::{
    divides,
    is_prime,
    lemma_distinct_primes_combine,
    lemma_fermat_little,
};
use crate::rsa::keys::RsaKeyPair;
use vstd::arithmetic::div_mod::{
    lemma_fundamental_div_mod,
    lemma_mod_bound,
    lemma_mod_equivalence,
    lemma_mul_mod_noop_general,
    lemma_small_mod,
};
use vstd::arithmetic::mul::lemma_mul_is_commutative;
use vstd::arithmetic::power::{
    lemma1_pow,
    lemma_pow1,
    lemma_pow_adds,
    lemma_pow_mod_noop,
    lemma_pow_multiplies,
    pow,
};
use vstd::prelude::*;

verus! {

/// Whether the pair is one that key generation yields from the primes `p`
/// and `q`: the primes differ, both keys carry the modulus `p * q`, neither
/// exponent is negative, and the product of the exponents leaves the
/// remainder one modulo `(p - 1) * (q - 1)`.
pub open spec fn generated_from(pair: RsaKeyPair, p: int, q: int) -> bool {
    &&& is_prime(p)
    &&& is_prime(q)
    &&& p != q
    &&& pair.public_key.n@ == p * q
    &&& pair.private_key.n@ == p * q
    &&& pair.public_key.e@ >= 0
    &&& pair.private_key.d@ >= 0
    &&& (pair.public_key.e@ * pair.private_key.d@) % ((p - 1) * (q - 1)) == 1
}

/// A key pair is valid where two primes exist from which it is generated.
pub open spec fn valid_key_pair(pair: RsaKeyPair) -> bool {
    exists|p: int, q: int| generated_from(pair, p, q)
}

/// Modulo a prime `p`, raising to a power that is one more than a multiple
/// of `p - 1` changes nothing.
pub proof fn lemma_power_cycle(value: int, p: int, rounds: nat)
    requires
        is_prime(p),
    ensures
        pow(value, 1 + rounds * ((p - 1) as nat)) % p == value % p,
{
    let cycle = (p - 1) as nat;
    let turned = pow(value, rounds * cycle);
    assert(pow(value, 1 + rounds * cycle) == value * turned) by {
        lemma_pow_adds(value, 1, rounds * cycle);
        lemma_pow1(value);
    }
    lemma_mul_mod_noop_general(value, turned, p);
    if divides(p, value) {
        let residue = turned % p;
        assert((value % p) * residue == 0) by (nonlinear_arith)
            requires
                value % p == 0,
        ;
        lemma_small_mod(0, p as nat);
    } else {
        // One turn of the cycle gives one, and so does any number of turns.
        assert(turned % p == 1) by {
            lemma_fermat_little(value, p);
            lemma_mul_is_commutative(rounds as int, cycle as int);
            lemma_pow_multiplies(value, cycle, rounds);
            lemma_pow_mod_noop(pow(value, cycle), rounds, p);
            lemma1_pow(rounds);
            lemma_small_mod(1, p as nat);
        }
        assert(value * (turned % p) == value);
    }
}

/// Under the two exponents of a pair generated from `p` and `q`, one after
/// the other, every number is congruent to itself modulo `p * q`.
pub proof fn lemma_exponents_cancel(value: int, first: nat, second: nat, p: int, q: int)
    requires
        is_prime(p),
        is_prime(q),
        p != q,
        ((first * second) as int) % ((p - 1) * (q - 1)) == 1,
    ensures
        p * q > 0,
        pow(value, first * second) % (p * q) == value % (p * q),
{
    let totient = (p - 1) * (q - 1);
    let exponent = first * second;
    assert(totient > 0) by (nonlinear_arith)
        requires
            totient == (p - 1) * (q - 1),
            p >= 2,
            q >= 2,
    ;
    assert(p * q > 0) by (nonlinear_arith)
        requires
            p >= 2,
            q >= 2,
    ;
    let rounds = exponent as int / totient;
    lemma_fundamental_div_mod(exponent as int, totient);
    lemma_mod_bound(exponent as int, totient);
    assert(rounds >= 0) by (nonlinear_arith)
        requires
            totient > 1,
            exponent == totient * rounds + 1,
            exponent >= 0,
    ;
    let power = pow(value, exponent);
    assert(power % p == value % p) by {
        let turns = rounds * (q - 1);
        assert(turns >= 0 && exponent == 1 + turns * (p - 1)) by (nonlinear_arith)
            requires
                exponent == ((p - 1) * (q - 1)) * rounds + 1,
                turns == rounds * (q - 1),
                rounds >= 0,
                q >= 2,
        ;
        lemma_power_cycle(value, p, turns as nat);
    }
    assert(power % q == value % q) by {
        let turns = rounds * (p - 1);
        assert(turns >= 0 && exponent == 1 + turns * (q - 1)) by (nonlinear_arith)
            requires
                exponent == ((p - 1) * (q - 1)) * rounds + 1,
                turns == rounds * (p - 1),
                rounds >= 0,
                p >= 2,
        ;
        lemma_power_cycle(value, q, turns as nat);
    }
    lemma_mod_equivalence(power, value, p);
    lemma_mod_equivalence(power, value, q);
    lemma_distinct_primes_combine(p, q, power - value);
    lemma_mod_equivalence(power, value, p * q);
}

/// Raising to one exponent and then to the other, each time reduced by a
/// modulus above zero, is raising to the product of the exponents.
pub proof fn lemma_two_steps_are_one(value: int, first: nat, second: nat, modulus: int)
    requires
        modulus > 0,
    ensures
        library_power(library_power(value, first, modulus), second, modulus) == pow(
            value,
            first * second,
        ) % modulus,
{
    lemma_pow_mod_noop(pow(value, first), second, modulus);
    lemma_pow_multiplies(value, first, second);
}

/// Decryption undoes encryption: under a valid key pair, a message that is
/// not negative and below the modulus comes back from its ciphertext.
pub proof fn lemma_decryption_recovers_message(pair: RsaKeyPair, message: int)
    requires
        valid_key_pair(pair),
        0 <= message < pair.public_key.n@,
    ensures
        library_power(
            library_power(message, pair.public_key.e@ as nat, pair.public_key.n@),
            pair.private_key.d@ as nat,
            pair.private_key.n@,
        ) == message,
{
    let (p, q) = choose|p: int, q: int| generated_from(pair, p, q);
    let e = pair.public_key.e@ as nat;
    let d = pair.private_key.d@ as nat;
    lemma_exponents_cancel(message, e, d, p, q);
    lemma_two_steps_are_one(message, e, d, p * q);
    lemma_small_mod(message as nat, (p * q) as nat);
}

/// Verification undoes signing: under a valid key pair, a digest that is
/// not negative and below the modulus comes back from its signature.
pub proof fn lemma_verification_recovers_digest(pair: RsaKeyPair, digest: int)
    requires
        valid_key_pair(pair),
        0 <= digest < pair.private_key.n@,
    ensures
        library_power(
            library_power(digest, pair.private_key.d@ as nat, pair.private_key.n@),
            pair.public_key.e@ as nat,
            pair.public_key.n@,
        ) == digest,
{
    let (p, q) = choose|p: int, q: int| generated_from(pair, p, q);
    let e = pair.public_key.e@ as nat;
    let d = pair.private_key.d@ as nat;
    lemma_mul_is_commutative(e as int, d as int);
    lemma_exponents_cancel(digest, d, e, p, q);
    lemma_two_steps_are_one(digest, d, e, p * q);
    lemma_small_mod(digest as nat, (p * q) as nat);
}

} // verus!
