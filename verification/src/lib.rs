//! Arithmetic and key-abstraction core of an educational RSA cryptosystem.
//!
//! The heart of the crate is modular exponentiation on integers of any size
//! ([`fast_exponentiation`]), offered through a service with a fixed speed
//! ([`number_theory_service`]) and used by the RSA keys ([`rsa`]) for every
//! transform. What the engine computes is defined in [`modular_power`],
//! together with the laws that hold of it; [`primes`] and
//! [`rsa::round_trip`] prove that decryption undoes encryption.

pub mod asymmetric_encryption_types;
pub mod big_integer;
pub mod exponentiation;
pub mod fast_exponentiation;
pub mod modular_power;
pub mod number_theory_functions;
pub mod number_theory_service;
pub mod primes;
pub mod rsa;
pub mod serializable_models;
