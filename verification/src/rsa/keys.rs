//! RSA keys. Every transform of RSA is one modular exponentiation with the
//! exponent and the modulus of the key.

use crate::asymmetric_encryption_types::{
    AsymmetricKey,
    AsymmetricKeyPair,
    DecryptionKey,
    EncryptionKey,
    PrivateKey,
    PublicKey,
    SignatureKey,
    VerificationKey,
};
use crate::big_integer::BigInteger;
use crate::fast_exponentiation::FastExponentiation;
use crate::modular_power::library_power;
use crate::rsa::rsa_scheme::RsaScheme;
use vstd::prelude::*;

verus! {

/// Public key: the exponent `e` that encrypts and verifies, and the modulus
/// `n`.
#[derive(Debug)]
pub struct RsaPublicKey {
    pub e: BigInteger,
    pub n: BigInteger,
}

/// Private key: the exponent `d` that decrypts and signs, and the modulus
/// `n`.
#[derive(Debug)]
pub struct RsaPrivateKey {
    pub d: BigInteger,
    pub n: BigInteger,
}

/// The two keys that one key generation produced.
#[derive(Debug)]
pub struct RsaKeyPair {
    pub public_key: RsaPublicKey,
    pub private_key: RsaPrivateKey,
}

impl View for RsaPublicKey {
    /// The exponent and the modulus.
    type V = (int, int);

    open spec fn view(&self) -> (int, int) {
        (self.e@, self.n@)
    }
}

impl View for RsaPrivateKey {
    /// The exponent and the modulus.
    type V = (int, int);

    open spec fn view(&self) -> (int, int) {
        (self.d@, self.n@)
    }
}

impl View for RsaKeyPair {
    /// The view of the public key and that of the private key.
    type V = ((int, int), (int, int));

    open spec fn view(&self) -> ((int, int), (int, int)) {
        (self.public_key@, self.private_key@)
    }
}

impl Clone for RsaPublicKey {
    fn clone(&self) -> (copy: Self)
        ensures
            copy@ == self@,
    {
        RsaPublicKey { e: self.e.clone(), n: self.n.clone() }
    }
}

impl Clone for RsaPrivateKey {
    fn clone(&self) -> (copy: Self)
        ensures
            copy@ == self@,
    {
        RsaPrivateKey { d: self.d.clone(), n: self.n.clone() }
    }
}

impl Clone for RsaKeyPair {
    fn clone(&self) -> (copy: Self)
        ensures
            copy@ == self@,
    {
        RsaKeyPair { public_key: self.public_key.clone(), private_key: self.private_key.clone() }
    }
}

impl AsymmetricKey<RsaScheme> for RsaPublicKey {

}

impl PublicKey<RsaScheme> for RsaPublicKey {

}

impl EncryptionKey<RsaScheme> for RsaPublicKey {

}

impl VerificationKey<RsaScheme> for RsaPublicKey {

}

impl AsymmetricKey<RsaScheme> for RsaPrivateKey {

}

impl PrivateKey<RsaScheme> for RsaPrivateKey {

}

impl DecryptionKey<RsaScheme> for RsaPrivateKey {

}

impl SignatureKey<RsaScheme> for RsaPrivateKey {

}

impl AsymmetricKeyPair<RsaPublicKey, RsaPrivateKey, RsaScheme> for RsaKeyPair {
    open spec fn public_half(&self) -> RsaPublicKey {
        self.public_key
    }

    open spec fn private_half(&self) -> RsaPrivateKey {
        self.private_key
    }

    fn public(&self) -> (key: RsaPublicKey)
        ensures
            key@ == self.public_key@,
    {
        self.public_key.clone()
    }

    fn private(&self) -> (key: RsaPrivateKey)
        ensures
            key@ == self.private_key@,
    {
        self.private_key.clone()
    }
}

impl RsaPublicKey {
    /// Whether the engine accepts the key: the exponent is not negative and
    /// the modulus is not zero.
    pub open spec fn usable(&self) -> bool {
        self.e@ >= 0 && self.n@ != 0
    }

    /// Encrypts a message: the message to the power `e`, reduced by `n`.
    pub fn encrypt(&self, message: &BigInteger) -> (ciphertext: BigInteger)
        requires
            self.usable(),
        ensures
            ciphertext@ == library_power(message@, self.e@ as nat, self.n@),
    {
        FastExponentiation::calculate(message, &self.e, &self.n, true)
    }

    /// Opens a signature: the signature to the power `e`, reduced by `n`.
    /// The signature is good where the result is the signed digest.
    pub fn verify(&self, signature: &BigInteger) -> (digest: BigInteger)
        requires
            self.usable(),
        ensures
            digest@ == library_power(signature@, self.e@ as nat, self.n@),
    {
        FastExponentiation::calculate(signature, &self.e, &self.n, true)
    }
}

impl RsaPrivateKey {
    /// Whether the engine accepts the key: the exponent is not negative and
    /// the modulus is not zero.
    pub open spec fn usable(&self) -> bool {
        self.d@ >= 0 && self.n@ != 0
    }

    /// Decrypts a ciphertext: the ciphertext to the power `d`, reduced by
    /// `n`.
    pub fn decrypt(&self, ciphertext: &BigInteger) -> (message: BigInteger)
        requires
            self.usable(),
        ensures
            message@ == library_power(ciphertext@, self.d@ as nat, self.n@),
    {
        FastExponentiation::calculate(ciphertext, &self.d, &self.n, true)
    }

    /// Signs a digest: the digest to the power `d`, reduced by `n`.
    pub fn sign(&self, digest: &BigInteger) -> (signature: BigInteger)
        requires
            self.usable(),
        ensures
            signature@ == library_power(digest@, self.d@ as nat, self.n@),
    {
        FastExponentiation::calculate(digest, &self.d, &self.n, true)
    }
}

} // verus!
