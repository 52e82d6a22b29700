use num::BigInt;
use rsa_core::asymmetric_encryption_types::AsymmetricKeyPair;
use rsa_core::big_integer::BigInteger;
use rsa_core::exponentiation::{exponentiation, exponentiation_of, ExponentiationError};
use rsa_core::number_theory_service::{NumberTheoryService, NumberTheoryServiceSpeed};
use rsa_core::rsa::keys::{RsaKeyPair, RsaPrivateKey, RsaPublicKey};
use rsa_core::serializable_models::{
    assemble_private_key, assemble_public_key, ExponentiationRequest, KeyPair,
};

fn small(value: i64) -> BigInteger {
    BigInteger::from_signed_bytes_le(BigInt::from(value).to_signed_bytes_le())
}

fn read(number: &BigInteger) -> BigInt {
    BigInt::from_signed_bytes_le(&number.to_signed_bytes_le())
}

fn request(base: &str, exponent: &str, modulus: &str) -> ExponentiationRequest {
    ExponentiationRequest {
        exponent: exponent.to_string(),
        base: base.to_string(),
        modulus: modulus.to_string(),
    }
}

fn textbook_pair() -> RsaKeyPair {
    // p = 61, q = 53, n = 3233, phi = 3120, e = 17, d = 2753.
    RsaKeyPair {
        public_key: RsaPublicKey { e: small(17), n: small(3233) },
        private_key: RsaPrivateKey { d: small(2753), n: small(3233) },
    }
}

#[test]
fn service_forwards_with_its_speed() {
    let fast = NumberTheoryService::new(NumberTheoryServiceSpeed::Fast);
    let slow = NumberTheoryService::new(NumberTheoryServiceSpeed::Slow);
    let base = small(561563);
    let exponent = small(1300);
    let modulus = small(564);
    assert_eq!(read(&fast.fast_exponentiation(&base, &exponent, &modulus)), BigInt::from(205));
    assert_eq!(read(&slow.fast_exponentiation(&base, &exponent, &modulus)), BigInt::from(205));
    // On a negative modulus the two speeds are told apart.
    let modulus = small(-5);
    let base = small(2);
    let exponent = small(3);
    assert_eq!(read(&fast.fast_exponentiation(&base, &exponent, &modulus)), BigInt::from(-2));
    assert_eq!(read(&slow.fast_exponentiation(&base, &exponent, &modulus)), BigInt::from(3));
}

#[test]
fn pair_projects_copies_of_both_halves() {
    let pair = textbook_pair();
    let public = pair.public();
    let private = pair.private();
    assert_eq!(read(&public.e), BigInt::from(17));
    assert_eq!(read(&public.n), BigInt::from(3233));
    assert_eq!(read(&private.d), BigInt::from(2753));
    assert_eq!(read(&private.n), BigInt::from(3233));
    drop(pair);
    assert_eq!(read(&public.n), read(&private.n));
}

#[test]
fn encryption_is_one_exponentiation() {
    let pair = textbook_pair();
    assert_eq!(read(&pair.public().encrypt(&small(65))), BigInt::from(2790));
    assert_eq!(read(&pair.private().decrypt(&small(2790))), BigInt::from(65));
}

#[test]
fn decryption_undoes_encryption() {
    let pair = textbook_pair();
    let public = pair.public();
    let private = pair.private();
    for message in 0i64..3233 {
        let ciphertext = public.encrypt(&small(message));
        assert_eq!(read(&private.decrypt(&ciphertext)), BigInt::from(message));
    }
}

#[test]
fn verification_undoes_signing() {
    let pair = textbook_pair();
    let public = pair.public();
    let private = pair.private();
    assert_eq!(read(&private.sign(&small(65))), BigInt::from(588));
    for digest in 0i64..3233 {
        let signature = private.sign(&small(digest));
        assert_eq!(read(&public.verify(&signature)), BigInt::from(digest));
    }
}

#[test]
fn cloned_keys_hold_the_same_numbers() {
    let pair = textbook_pair().clone();
    let public = pair.public_key.clone();
    let private = pair.private_key.clone();
    assert_eq!(read(&public.e), BigInt::from(17));
    assert_eq!(read(&private.d), BigInt::from(2753));
}

#[test]
fn request_is_answered_in_decimal() {
    let response = exponentiation(&request("561563", "1300", "564"), false);
    assert_eq!(response.unwrap().message, "205");
    let response = exponentiation(&request("561563", "1300", "564"), true);
    assert_eq!(response.unwrap().message, "205");
    let response = exponentiation(&request("-7", "3", "10"), true);
    assert_eq!(response.unwrap().message, "7");
    let response = exponentiation(&request("2", "3", "-5"), true);
    assert_eq!(response.unwrap().message, "-2");
    let response = exponentiation(
        &request("56156334590832345", "109458390583094852904812340", "564234859"),
        false,
    );
    assert_eq!(response.unwrap().message, "558376785");
}

#[test]
fn request_errors_name_the_first_fault() {
    let error = |base: &str, exponent: &str, modulus: &str| {
        exponentiation(&request(base, exponent, modulus), true).err().unwrap()
    };
    assert_eq!(error("2", "x", "y"), ExponentiationError::MalformedExponent);
    assert_eq!(error("", "3", "y"), ExponentiationError::MalformedBase);
    assert_eq!(error("2", "3", "5.0"), ExponentiationError::MalformedModulus);
    assert_eq!(error("2", "-3", "0"), ExponentiationError::NegativeExponent);
    assert_eq!(error("2", "3", "0"), ExponentiationError::ZeroModulus);
    assert_eq!(
        exponentiation(&request("2", "3", "0"), false).err().unwrap(),
        ExponentiationError::ZeroModulus
    );
}

#[test]
fn read_operands_are_checked_in_order() {
    let outcome = exponentiation_of(None, None, None, true);
    assert_eq!(outcome.err().unwrap(), ExponentiationError::MalformedExponent);
    let outcome = exponentiation_of(Some(small(3)), None, None, true);
    assert_eq!(outcome.err().unwrap(), ExponentiationError::MalformedBase);
    let outcome = exponentiation_of(Some(small(3)), Some(small(2)), None, true);
    assert_eq!(outcome.err().unwrap(), ExponentiationError::MalformedModulus);
    let outcome = exponentiation_of(Some(small(-3)), Some(small(2)), Some(small(0)), false);
    assert_eq!(outcome.err().unwrap(), ExponentiationError::NegativeExponent);
    let outcome = exponentiation_of(Some(small(3)), Some(small(2)), Some(small(0)), false);
    assert_eq!(outcome.err().unwrap(), ExponentiationError::ZeroModulus);
    let outcome = exponentiation_of(Some(small(2)), Some(small(37)), Some(small(89)), false);
    assert_eq!(read(&outcome.unwrap()), BigInt::from(34));
    let outcome = exponentiation_of(Some(small(2)), Some(small(37)), Some(small(89)), true);
    assert_eq!(read(&outcome.unwrap()), BigInt::from(34));
}

#[test]
fn key_pair_texts_become_keys() {
    let texts = KeyPair {
        modulus: "3233".to_string(),
        e: "17".to_string(),
        d: "2753".to_string(),
        block_size_pub: "1".to_string(),
        block_size_priv: "2".to_string(),
    };
    let public = texts.to_public_key().unwrap();
    let private = texts.to_private_key().unwrap();
    assert_eq!(read(&public.e), BigInt::from(17));
    assert_eq!(read(&public.n), BigInt::from(3233));
    assert_eq!(read(&private.d), BigInt::from(2753));
    assert_eq!(read(&private.n), BigInt::from(3233));
}

#[test]
fn malformed_key_texts_give_no_key() {
    let texts = KeyPair {
        modulus: "3233".to_string(),
        e: "seventeen".to_string(),
        d: "2753".to_string(),
        block_size_pub: "1".to_string(),
        block_size_priv: "2".to_string(),
    };
    assert!(texts.to_public_key().is_none());
    assert!(texts.to_private_key().is_some());
    let texts = KeyPair {
        modulus: "".to_string(),
        e: "17".to_string(),
        d: "2753".to_string(),
        block_size_pub: "1".to_string(),
        block_size_priv: "2".to_string(),
    };
    assert!(texts.to_public_key().is_none());
    assert!(texts.to_private_key().is_none());
}

#[test]
fn keys_are_assembled_from_both_parts_only() {
    assert!(assemble_public_key(Some(small(3233)), None).is_none());
    assert!(assemble_public_key(None, Some(small(17))).is_none());
    assert!(assemble_private_key(None, None).is_none());
    let key = assemble_private_key(Some(small(3233)), Some(small(2753))).unwrap();
    assert_eq!(read(&key.d), BigInt::from(2753));
    assert_eq!(read(&key.n), BigInt::from(3233));
    let key = assemble_public_key(Some(small(3233)), Some(small(17))).unwrap();
    assert_eq!(read(&key.e), BigInt::from(17));
    assert_eq!(read(&key.n), BigInt::from(3233));
}
