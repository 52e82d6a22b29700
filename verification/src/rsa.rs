//! The RSA scheme: its marker, its key types, and why its transforms undo
//! each other.

pub mod keys;
pub mod round_trip;
pub mod rsa_scheme;
