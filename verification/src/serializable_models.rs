//! The plain values that cross the service boundary. Numbers travel as
//! decimal text.

use crate::big_integer::{decimal_value, BigInteger};
use crate::rsa::keys::{RsaPrivateKey, RsaPublicKey};
use vstd::prelude::*;

verus! {

/// A key pair as decimal text.
pub struct KeyPair {
    pub modulus: String,
    pub e: String,
    pub d: String,
    pub block_size_pub: String,
    pub block_size_priv: String,
}

/// A response that carries one text.
pub struct SingleStringResponse {
    pub message: String,
}

/// Parameters of a key generation.
pub struct CreateKeyPairRequest {
    pub modulus_width: u32,
    pub miller_rabin_rounds: u32,
    pub random_seed: u32,
    pub number_system_base: u32,
}

/// A message to encrypt or decrypt under a key pair.
pub struct EncryptDecryptRequest {
    pub message: String,
    pub key_pair: KeyPair,
    pub number_system_base: u32,
}

/// A plaintext to sign under a key pair.
pub struct SignRequest {
    pub plaintext: String,
    pub key_pair: KeyPair,
}

/// A plaintext and a signature to check under a key pair.
pub struct VerifyRequest {
    pub plaintext: String,
    pub signature: String,
    pub key_pair: KeyPair,
}

/// The three operands of a modular exponentiation as decimal text.
pub struct ExponentiationRequest {
    pub exponent: String,
    pub base: String,
    pub modulus: String,
}

/// The private key with the given modulus and exponent, where both are
/// there.
pub open spec fn private_key_of(modulus: Option<int>, exponent: Option<int>) -> Option<(int, int)> {
    match (modulus, exponent) {
        (Some(n), Some(d)) => Some((d, n)),
        _ => None,
    }
}

/// The public key with the given modulus and exponent, where both are
/// there.
pub open spec fn public_key_of(modulus: Option<int>, exponent: Option<int>) -> Option<(int, int)> {
    match (modulus, exponent) {
        (Some(n), Some(e)) => Some((e, n)),
        _ => None,
    }
}

/// The view of a key that may be missing.
pub open spec fn private_key_view(key: Option<RsaPrivateKey>) -> Option<(int, int)> {
    match key {
        Some(key) => Some(key@),
        None => None,
    }
}

/// The view of a key that may be missing.
pub open spec fn public_key_view(key: Option<RsaPublicKey>) -> Option<(int, int)> {
    match key {
        Some(key) => Some(key@),
        None => None,
    }
}

/// The value of a number that may be missing.
pub open spec fn number_view(number: Option<BigInteger>) -> Option<int> {
    match number {
        Some(number) => Some(number@),
        None => None,
    }
}

/// Puts a private key together from a modulus and an exponent that were
/// read from text; there is a key exactly when both were read.
pub fn assemble_private_key(modulus: Option<BigInteger>, exponent: Option<BigInteger>) -> (key:
    Option<RsaPrivateKey>)
    ensures
        private_key_view(key) == private_key_of(number_view(modulus), number_view(exponent)),
{
    match (modulus, exponent) {
        (Some(n), Some(d)) => Some(RsaPrivateKey { d, n }),
        _ => None,
    }
}

/// Puts a public key together from a modulus and an exponent that were read
/// from text; there is a key exactly when both were read.
pub fn assemble_public_key(modulus: Option<BigInteger>, exponent: Option<BigInteger>) -> (key:
    Option<RsaPublicKey>)
    ensures
        public_key_view(key) == public_key_of(number_view(modulus), number_view(exponent)),
{
    match (modulus, exponent) {
        (Some(n), Some(e)) => Some(RsaPublicKey { e, n }),
        _ => None,
    }
}

impl KeyPair {
    /// The private key that the texts denote: `d` and the modulus, read as
    /// decimal numbers. There is none where one of the two is no number.
    pub fn to_private_key(&self) -> (key: Option<RsaPrivateKey>)
        ensures
            private_key_view(key) == private_key_of(
                decimal_value(self.modulus@),
                decimal_value(self.d@),
            ),
    {
        let modulus = BigInteger::parse_decimal(self.modulus.as_str());
        let exponent = BigInteger::parse_decimal(self.d.as_str());
        assemble_private_key(modulus, exponent)
    }

    /// The public key that the texts denote: `e` and the modulus, read as
    /// decimal numbers. There is none where one of the two is no number.
    pub fn to_public_key(&self) -> (key: Option<RsaPublicKey>)
        ensures
            public_key_view(key) == public_key_of(
                decimal_value(self.modulus@),
                decimal_value(self.e@),
            ),
    {
        let modulus = BigInteger::parse_decimal(self.modulus.as_str());
        let exponent = BigInteger::parse_decimal(self.e.as_str());
        assemble_public_key(modulus, exponent)
    }
}

} // verus!
