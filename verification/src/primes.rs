//! Prime numbers and the three facts about them that RSA rests on: a prime
//! that divides a product divides a factor, Fermat's little theorem, and
//! the combination of congruences modulo two distinct primes.

use vstd::arithmetic::div_mod::{
    lemma_fundamental_div_mod,
    lemma_mod_bound,
    lemma_mod_equivalence,
    lemma_mod_multiples_basic,
    lemma_mul_mod_noop_general,
    lemma_small_mod,
};
use vstd::arithmetic::power::{lemma_pow0, lemma_pow1, lemma_pow_adds, pow};
use vstd::prelude::*;
use vstd::seq_lib::{
    commutative_foldl,
    lemma_fold_left_permutation,
    seq_to_set_is_finite,
    to_multiset_contains,
};
use vstd::set_lib::lemma_subset_equality;

verus! {

/// Whether `divisor` divides `value`.
pub open spec fn divides(divisor: int, value: int) -> bool {
    value % divisor == 0
}

/// A prime is at least two and has no divisor strictly between one and
/// itself.
pub open spec fn is_prime(p: int) -> bool {
    &&& p >= 2
    &&& forall|d: int| 1 < d < p ==> !#[trigger] divides(d, p)
}

/// Below a prime, only zero is turned into a multiple of the prime by a
/// factor that the prime does not divide.
proof fn lemma_no_small_cofactor(p: int, a: int, b: int)
    requires
        is_prime(p),
        !divides(p, a),
        0 <= b < p,
        divides(p, a * b),
    ensures
        b == 0,
    decreases b,
{
    if b == 1 {
        assert(a * 1 == a);
    } else if b > 1 {
        // Divide the prime by `b`: the remainder is a smaller cofactor.
        let k = p / b;
        let r = p % b;
        lemma_fundamental_div_mod(p, b);
        lemma_mod_bound(p, b);
        assert(!divides(b, p));
        let t = (a * b) / p;
        lemma_fundamental_div_mod(a * b, p);
        assert(a * r == (a - k * t) * p) by (nonlinear_arith)
            requires
                p == b * k + r,
                a * b == p * t,
        ;
        lemma_mod_multiples_basic(a - k * t, p);
        lemma_no_small_cofactor(p, a, r);
    }
}

/// A prime that divides a product divides one of the factors.
pub proof fn lemma_prime_divides_factor(p: int, a: int, b: int)
    requires
        is_prime(p),
        divides(p, a * b),
    ensures
        divides(p, a) || divides(p, b),
{
    if !divides(p, a) {
        lemma_mul_mod_noop_general(a, b, p);
        lemma_mod_bound(b, p);
        lemma_no_small_cofactor(p, a, b % p);
    }
}

/// A prime divides no number strictly between zero and itself.
pub proof fn lemma_prime_exceeds_its_multiples(p: int, value: int)
    requires
        is_prime(p),
        0 < value < p,
    ensures
        !divides(p, value),
{
    lemma_small_mod(value as nat, p as nat);
}

/// What two distinct primes both divide, their product divides.
pub proof fn lemma_distinct_primes_combine(p: int, q: int, value: int)
    requires
        is_prime(p),
        is_prime(q),
        p != q,
        divides(p, value),
        divides(q, value),
    ensures
        divides(p * q, value),
{
    let y = value / p;
    lemma_fundamental_div_mod(value, p);
    assert(value == p * y);
    // `q` does not divide `p`, so it divides the cofactor.
    assert(!divides(q, p)) by {
        if q < p {
            assert(!divides(q, p));
        } else {
            lemma_prime_exceeds_its_multiples(q, p);
        }
    }
    lemma_prime_divides_factor(q, p, y);
    let z = y / q;
    lemma_fundamental_div_mod(y, q);
    assert(value == z * (p * q)) by (nonlinear_arith)
        requires
            value == p * y,
            y == q * z,
    ;
    assert(p * q > 0) by (nonlinear_arith)
        requires
            p >= 2,
            q >= 2,
    ;
    lemma_mod_multiples_basic(z, p * q);
}

/// Product of the entries of a sequence.
pub open spec fn product(entries: Seq<int>) -> int {
    entries.fold_left(1, |partial: int, entry: int| partial * entry)
}

/// The numbers from one to `count`, in order.
pub open spec fn first_numbers(count: nat) -> Seq<int> {
    Seq::new(count, |i: int| i + 1)
}

/// The remainders modulo `p` of the first `count` positive multiples of
/// `a`.
pub open spec fn first_multiples(a: int, p: int, count: nat) -> Seq<int> {
    Seq::new(count, |i: int| (a * (i + 1)) % p)
}

/// The product of a sequence is the product of all entries but the last,
/// times the last.
proof fn lemma_product_of_extension(entries: Seq<int>)
    requires
        entries.len() > 0,
    ensures
        product(entries) == product(entries.drop_last()) * entries.last(),
{
}

/// A prime divides no product of numbers below it.
proof fn lemma_prime_spares_factorial(p: int, count: nat)
    requires
        is_prime(p),
        count < p,
    ensures
        !divides(p, product(first_numbers(count))),
    decreases count,
{
    let numbers = first_numbers(count);
    if count == 0 {
        lemma_small_mod(1, p as nat);
    } else {
        let fewer = (count - 1) as nat;
        assert(numbers.drop_last() =~= first_numbers(fewer));
        lemma_product_of_extension(numbers);
        lemma_prime_spares_factorial(p, fewer);
        lemma_prime_exceeds_its_multiples(p, count as int);
        if divides(p, product(numbers)) {
            lemma_prime_divides_factor(p, product(first_numbers(fewer)), count as int);
        }
    }
}

/// The product of the first multiples of `a`, reduced modulo `p`, is
/// congruent to the product of the first numbers times a power of `a`.
proof fn lemma_multiples_carry_a_power(a: int, p: int, count: nat)
    requires
        p > 0,
    ensures
        product(first_multiples(a, p, count)) % p == (pow(a, count) * product(
            first_numbers(count),
        )) % p,
    decreases count,
{
    let multiples = first_multiples(a, p, count);
    let numbers = first_numbers(count);
    if count == 0 {
        lemma_pow0(a);
    } else {
        let fewer = (count - 1) as nat;
        assert(multiples.drop_last() =~= first_multiples(a, p, fewer));
        assert(numbers.drop_last() =~= first_numbers(fewer));
        lemma_product_of_extension(multiples);
        lemma_product_of_extension(numbers);
        lemma_multiples_carry_a_power(a, p, fewer);
        let earlier_multiples = product(first_multiples(a, p, fewer));
        let earlier_numbers = product(first_numbers(fewer));
        let power = pow(a, fewer);
        let step = a * count;
        assert(product(multiples) == earlier_multiples * (step % p));
        assert(product(numbers) == earlier_numbers * count);
        assert(pow(a, count) == power * a) by {
            lemma_pow_adds(a, fewer, 1);
            lemma_pow1(a);
        }
        assert((power * earlier_numbers) * step == pow(a, count) * product(numbers))
            by (nonlinear_arith)
            requires
                pow(a, count) == power * a,
                product(numbers) == earlier_numbers * count,
                step == a * count,
        ;
        lemma_mul_mod_noop_general(earlier_multiples, step, p);
        lemma_mul_mod_noop_general(power * earlier_numbers, step, p);
    }
}

/// Multiplication by a number that a prime does not divide permutes the
/// non-zero remainders of the prime.
proof fn lemma_multiples_permute_remainders(a: int, p: int)
    requires
        is_prime(p),
        !divides(p, a),
    ensures
        first_multiples(a, p, (p - 1) as nat).to_multiset() == first_numbers(
            (p - 1) as nat,
        ).to_multiset(),
{
    let count = (p - 1) as nat;
    let multiples = first_multiples(a, p, count);
    let numbers = first_numbers(count);
    assert(numbers.no_duplicates());
    assert(multiples.no_duplicates()) by {
        assert forall|i: int, j: int|
            0 <= i < multiples.len() && 0 <= j < multiples.len() && i != j implies multiples[i]
            != multiples[j] by {
            if multiples[i] == multiples[j] {
                let (low, high) = if i < j {
                    (i, j)
                } else {
                    (j, i)
                };
                lemma_mod_equivalence(a * (high + 1), a * (low + 1), p);
                assert(a * (high + 1) - a * (low + 1) == a * (high - low)) by (nonlinear_arith);
                lemma_prime_divides_factor(p, a, high - low);
                lemma_prime_exceeds_its_multiples(p, high - low);
            }
        }
    }
    assert(multiples.to_set().subset_of(numbers.to_set())) by {
        assert forall|value: int| multiples.contains(value) implies numbers.contains(value) by {
            let i = choose|i: int| 0 <= i < multiples.len() && multiples[i] == value;
            lemma_mod_bound(a * (i + 1), p);
            lemma_prime_exceeds_its_multiples(p, i + 1);
            if value == 0 {
                lemma_prime_divides_factor(p, a, i + 1);
            }
            assert(numbers[value - 1] == value);
        }
    }
    multiples.unique_seq_to_set();
    numbers.unique_seq_to_set();
    seq_to_set_is_finite(multiples);
    seq_to_set_is_finite(numbers);
    lemma_subset_equality(multiples.to_set(), numbers.to_set());
    multiples.lemma_multiset_has_no_duplicates();
    numbers.lemma_multiset_has_no_duplicates();
    assert forall|value: int|
        multiples.to_multiset().count(value) == numbers.to_multiset().count(value) by {
        to_multiset_contains(multiples, value);
        to_multiset_contains(numbers, value);
        assert(multiples.to_set().contains(value) == numbers.to_set().contains(value));
    }
    assert(multiples.to_multiset() =~= numbers.to_multiset());
}

/// Fermat's little theorem: a number that the prime `p` does not divide,
/// raised to the power `p - 1`, leaves the remainder one.
pub proof fn lemma_fermat_little(a: int, p: int)
    requires
        is_prime(p),
        !divides(p, a),
    ensures
        pow(a, (p - 1) as nat) % p == 1,
{
    let count = (p - 1) as nat;
    let multiples = first_multiples(a, p, count);
    let numbers = first_numbers(count);
    let factorial = product(numbers);
    let power = pow(a, count);
    // Both sequences hold the same numbers, so their products are equal.
    assert(product(multiples) == factorial) by {
        let times = |partial: int, entry: int| partial * entry;
        assert(commutative_foldl(times)) by {
            assert forall|x: int, y: int, v: int| #[trigger]
                times(times(v, x), y) == times(times(v, y), x) by {
                assert((v * x) * y == (v * y) * x) by (nonlinear_arith);
            }
        }
        lemma_multiples_permute_remainders(a, p);
        lemma_fold_left_permutation(multiples, numbers, times, 1);
    }
    lemma_multiples_carry_a_power(a, p, count);
    // The prime divides `(power - 1) * factorial` and not the factorial.
    lemma_mod_equivalence(power * factorial, factorial, p);
    assert(power * factorial - factorial == (power - 1) * factorial) by (nonlinear_arith);
    lemma_prime_spares_factorial(p, count);
    lemma_prime_divides_factor(p, power - 1, factorial);
    lemma_mod_equivalence(power, 1, p);
    lemma_small_mod(1, p as nat);
}

} // verus!
