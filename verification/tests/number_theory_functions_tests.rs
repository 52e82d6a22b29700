use rsa_core::number_theory_functions::{expanded_euclidean_algorithm, fast_exponentiation};

#[test]
fn machine_exponentiation_of_the_documented_example() {
    assert_eq!(fast_exponentiation(95, 130, 7), 4);
}

#[test]
fn machine_exponentiation_leaves_small_exponents_unreduced() {
    assert_eq!(fast_exponentiation(95, 0, 7), 1);
    assert_eq!(fast_exponentiation(95, 0, 1), 1);
    assert_eq!(fast_exponentiation(95, 1, 7), 95);
    assert_eq!(fast_exponentiation(95, 0, 0), 1);
    assert_eq!(fast_exponentiation(95, 1, 0), 95);
}

#[test]
fn machine_exponentiation_agrees_with_the_power_while_in_range() {
    for base in 0i32..40 {
        for exponent in 2i32..20 {
            for modul in 1i32..40 {
                let mut expected: i64 = 1;
                for _ in 0..exponent {
                    expected = expected * (base as i64) % (modul as i64);
                }
                assert_eq!(fast_exponentiation(base, exponent, modul) as i64, expected);
            }
        }
    }
    assert_eq!(fast_exponentiation(37, 2, 89), 34);
    assert_eq!(fast_exponentiation(3, 5, 1000), 243);
}

#[test]
fn machine_exponentiation_wraps_around_silently() {
    // 65536 squared is 2^32, which wraps to zero.
    assert_eq!(fast_exponentiation(65536, 2, 1000), 0);
    // 46341 squared is 2147488281, which wraps to -2147479015.
    assert_eq!(fast_exponentiation(46341, 2, 1000), -15);
}

#[test]
fn machine_exponentiation_with_negative_operands() {
    // A negative odd exponent takes the even branch: the remainder of a
    // negative odd number by two is minus one.
    assert_eq!(fast_exponentiation(5, -1, 7), 1);
    assert_eq!(fast_exponentiation(5, -3, 7), 1);
    // The remainder carries the sign of the product.
    assert_eq!(fast_exponentiation(-3, 3, 5), -2);
    assert_eq!(fast_exponentiation(-3, 2, 5), 4);
    assert_eq!(fast_exponentiation(3, 3, -5), 2);
    // Everything is a multiple of minus one.
    assert_eq!(fast_exponentiation(i32::MIN, 2, -1), 0);
    assert_eq!(fast_exponentiation(i32::MIN, 3, -1), 0);
    assert_eq!(fast_exponentiation(7, 9, -1), 0);
}

#[test]
fn euclidean_entry_point_does_nothing() {
    expanded_euclidean_algorithm();
}
