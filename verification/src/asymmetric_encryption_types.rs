//! What a key of an asymmetric scheme can do.
//!
//! Each capability is a trait without state, parameterized by the scheme. A
//! key type implements the capabilities that its scheme grants it, in any
//! combination: an RSA public key, for one, both encrypts and verifies.

use vstd::prelude::*;

verus! {

/// A key that belongs to `Scheme`.
pub trait AsymmetricKey<Scheme> {

}

/// The half of a pair that may be published.
pub trait PublicKey<Scheme>: AsymmetricKey<Scheme> {

}

/// The half of a pair that stays secret.
pub trait PrivateKey<Scheme>: AsymmetricKey<Scheme> {

}

/// A key that turns plaintext into ciphertext.
pub trait EncryptionKey<Scheme>: AsymmetricKey<Scheme> {

}

/// A key that turns ciphertext back into plaintext.
pub trait DecryptionKey<Scheme>: AsymmetricKey<Scheme> {

}

/// A key that produces signatures.
pub trait SignatureKey<Scheme>: AsymmetricKey<Scheme> {

}

/// A key that checks signatures.
pub trait VerificationKey<Scheme>: AsymmetricKey<Scheme> {

}

/// A public and a private key that were generated together.
pub trait AsymmetricKeyPair<Public: PublicKey<Scheme> + View, Private: PrivateKey<Scheme> + View, Scheme> {
    /// The public half that the pair holds.
    spec fn public_half(&self) -> Public;

    /// The private half that the pair holds.
    spec fn private_half(&self) -> Private;

    /// An owned copy of the public half: a key of its own with the same
    /// view.
    fn public(&self) -> (key: Public)
        ensures
            key@ == self.public_half()@,
    ;

    /// An owned copy of the private half: a key of its own with the same
    /// view.
    fn private(&self) -> (key: Private)
        ensures
            key@ == self.private_half()@,
    ;
}

} // verus!
