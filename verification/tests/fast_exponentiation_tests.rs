use num::BigInt;
use rsa_core::big_integer::BigInteger;
use rsa_core::fast_exponentiation::FastExponentiation;
use std::str::FromStr;

fn big(value: &BigInt) -> BigInteger {
    BigInteger::from_signed_bytes_le(value.to_signed_bytes_le())
}

fn small(value: i64) -> BigInteger {
    big(&BigInt::from(value))
}

fn read(number: &BigInteger) -> BigInt {
    BigInt::from_signed_bytes_le(&number.to_signed_bytes_le())
}

fn power(base: i64, exponent: i64, modul: i64, use_fast: bool) -> BigInt {
    read(&FastExponentiation::calculate(
        &small(base),
        &small(exponent),
        &small(modul),
        use_fast,
    ))
}

#[test]
fn fast_exponentiation_happy_flow() {
    let base = &small(561563);
    let exponent = &small(1300);
    let modul = &small(564);
    assert_eq!(
        read(&FastExponentiation::calculate(base, exponent, modul, false)),
        BigInt::from(205)
    );

    let base = &small(56156334590832345);
    let exponent = &big(&BigInt::from(109458390583094852904812340u128));
    let modul = &small(564234859);
    assert_eq!(
        read(&FastExponentiation::calculate(base, exponent, modul, false)),
        BigInt::from(558376785)
    );
}

#[test]
fn fast_exponentiation_exponent_one() {
    let base = &small(561563);
    let exponent = &small(1);
    let modul = &small(564);
    assert_eq!(
        read(&FastExponentiation::calculate(base, exponent, modul, false)),
        BigInt::from(383)
    );
}

#[test]
fn fast_exponentiation_exponent_zero() {
    let base = &small(561563);
    let exponent = &small(0);
    let modul = &small(564);
    assert_eq!(
        read(&FastExponentiation::calculate(base, exponent, modul, false)),
        BigInt::from(1)
    );
}

#[test]
fn fast_exponentiation_base_zero() {
    let base = &small(0);
    let exponent = &small(561563);
    let modul = &small(564);
    assert_eq!(
        read(&FastExponentiation::calculate(base, exponent, modul, false)),
        BigInt::from(0)
    );
}

#[test]
fn fast_exponentiation_modul_one() {
    let base = &small(3459860);
    let exponent = &small(561563);
    let modul = &small(1);
    assert_eq!(
        read(&FastExponentiation::calculate(base, exponent, modul, false)),
        BigInt::from(0)
    );
}

#[test]
fn fast_exponentiation_big_numbers() {
    let base = &big(&BigInt::from(3459860).pow(50));
    let exponent = &big(&BigInt::from(561563).pow(50));
    let modul = &big(&BigInt::from(345902).pow(50));
    assert_eq!(
        read(&FastExponentiation::calculate(base, exponent, modul, false)),
        BigInt::from_str("8408769600151667634624424658533698267981486479206207837400880482584240253227309957477768628293816726387378101618036878012339908404810884160600885622896014991205830046127587869666780551862829518403374323613697514544975024376847169484921172903282824411000834600056510593848311808").unwrap()
    );

    let base = &big(&BigInt::from(5345890).pow(50));
    let exponent = &big(&BigInt::from(561563).pow(50));
    let modul = &big(&BigInt::from(402).pow(453));
    assert_eq!(
        read(&FastExponentiation::calculate(base, exponent, modul, false)),
        BigInt::from_str("3865812286670140244135659583582784422868607182053532234892119221318009519049840848928181595205903918350994052685502954280587622821049262028969781448838683538880584872202936321233747460151097175519490133290457481138503925299942681667894197628591512134856836351617429125260375231408269314105167853219462996964862842118589984098650391290176408417243048103776854044821474824889320850667507890395769983356345061882029969478502315374312501247186250351754934295084246986742329795390786311078628530440754856479205141409578653316171690967468840184450509388030981031737577810850620779725958417192948561835194773695941361612225803217565675522961705627046360944634654621872586535332182764197222888226270388954006295237642124544864715066176310557964933132099186352875757363791307327674799516376108738026266118794617758595269081482227829599835454778768141217737588053896979935711190022064516393010329090283156674631737792250605934457811116131051558041088439411741976788375428610551855415643131350851177642819664715803674680663207355557044121133492467414028969595889934382173724212977872023208326609954389561973252556941619801122899324611797790397387249251896640501121328429738301895459647520768").unwrap()
    );

    assert_eq!(
        read(&FastExponentiation::calculate(&small(37), &small(2), &small(89), false)),
        BigInt::from(34)
    )
}

#[test]
fn library_strategy_gives_the_listed_results() {
    assert_eq!(power(561563, 1300, 564, true), BigInt::from(205));
    assert_eq!(power(561563, 1, 564, true), BigInt::from(383));
    assert_eq!(power(561563, 0, 564, true), BigInt::from(1));
    assert_eq!(power(0, 561563, 564, true), BigInt::from(0));
    assert_eq!(power(3459860, 561563, 1, true), BigInt::from(0));
    assert_eq!(power(37, 2, 89, true), BigInt::from(34));
}

#[test]
fn library_strategy_on_big_numbers() {
    let base = &big(&BigInt::from(3459860).pow(50));
    let exponent = &big(&BigInt::from(561563).pow(50));
    let modul = &big(&BigInt::from(345902).pow(50));
    assert_eq!(
        read(&FastExponentiation::calculate(base, exponent, modul, true)),
        BigInt::from_str("8408769600151667634624424658533698267981486479206207837400880482584240253227309957477768628293816726387378101618036878012339908404810884160600885622896014991205830046127587869666780551862829518403374323613697514544975024376847169484921172903282824411000834600056510593848311808").unwrap()
    );
}

#[test]
fn strategies_agree_on_positive_moduli() {
    for base in -20i64..20 {
        for exponent in 0i64..12 {
            for modul in 1i64..15 {
                assert_eq!(
                    power(base, exponent, modul, true),
                    power(base, exponent, modul, false),
                    "{base}^{exponent} mod {modul}"
                );
            }
        }
    }
}

#[test]
fn result_is_the_canonical_residue() {
    for base in -9i64..10 {
        for exponent in 0i64..9 {
            for modul in 1i64..12 {
                let expected = BigInt::from(base.pow(exponent as u32).rem_euclid(modul));
                for use_fast in [true, false] {
                    let result = power(base, exponent, modul, use_fast);
                    assert!(result >= BigInt::from(0) && result < BigInt::from(modul));
                    assert_eq!(result, expected);
                }
            }
        }
    }
}

#[test]
fn exponents_add_where_results_multiply() {
    for use_fast in [true, false] {
        for first in 0i64..8 {
            for second in 0i64..8 {
                let whole = power(7, first + second, 33, use_fast);
                let parts = power(7, first, 33, use_fast) * power(7, second, 33, use_fast);
                assert_eq!(whole, parts % BigInt::from(33));
            }
        }
    }
    assert_eq!(power(7, 5, 33, false), BigInt::from(10));
}

#[test]
fn exponent_zero_with_modulus_one_gives_zero() {
    assert_eq!(power(5, 0, 1, true), BigInt::from(0));
    assert_eq!(power(5, 0, 1, false), BigInt::from(0));
}

#[test]
fn negative_base_is_reduced_into_range() {
    assert_eq!(power(-7, 3, 10, true), BigInt::from(7));
    assert_eq!(power(-7, 3, 10, false), BigInt::from(7));
    assert_eq!(power(-7, 2, 10, false), BigInt::from(9));
}

#[test]
fn negative_modulus_parts_the_strategies() {
    // The library primitive follows the sign of the modulus.
    assert_eq!(power(2, 3, -5, true), BigInt::from(-2));
    assert_eq!(power(2, 0, -1, true), BigInt::from(0));
    // The iterative algorithm reduces into [0, |modulus|) and leaves the
    // initial one alone.
    assert_eq!(power(2, 3, -5, false), BigInt::from(3));
    assert_eq!(power(2, 0, -1, false), BigInt::from(1));
    assert_eq!(power(2, 1, -1, false), BigInt::from(0));
}

#[test]
fn library_strategy_follows_the_sign_of_the_modulus() {
    for base in -9i64..10 {
        for exponent in 0i64..7 {
            for modul in -9i64..10 {
                if modul == 0 {
                    continue;
                }
                let whole = base.pow(exponent as u32);
                let expected = if modul > 0 {
                    whole.rem_euclid(modul)
                } else {
                    -((-whole).rem_euclid(-modul))
                };
                assert_eq!(
                    power(base, exponent, modul, true),
                    BigInt::from(expected),
                    "{base}^{exponent} mod {modul}"
                );
            }
        }
    }
}

#[test]
fn iterative_strategy_takes_euclidean_remainders() {
    for base in -9i64..10 {
        for exponent in 0i64..7 {
            for modul in -9i64..10 {
                if modul == 0 {
                    continue;
                }
                let expected = if modul == 1 {
                    0
                } else if exponent == 0 {
                    1
                } else {
                    base.pow(exponent as u32).rem_euclid(modul)
                };
                assert_eq!(
                    power(base, exponent, modul, false),
                    BigInt::from(expected),
                    "{base}^{exponent} mod {modul}"
                );
            }
        }
    }
}

#[test]
fn long_exponents_are_consumed_bit_by_bit() {
    // 2^(2^70) mod 1000003, with an exponent of nine bytes.
    let exponent = big(&(BigInt::from(1) << 70usize));
    let base = small(2);
    let modul = small(1000003);
    let slow = read(&FastExponentiation::calculate(&base, &exponent, &modul, false));
    let fast = read(&FastExponentiation::calculate(&base, &exponent, &modul, true));
    let mut expected = BigInt::from(2);
    for _ in 0..70 {
        expected = (&expected * &expected) % BigInt::from(1000003);
    }
    assert_eq!(slow, expected);
    assert_eq!(fast, expected);
}
