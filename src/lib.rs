//! Schnorr signatures over the Ristretto group, with challenges drawn from a
//! Merlin transcript and a batch verifier that checks many signatures with one
//! multi-scalar multiplication.
#![allow(non_snake_case)]

pub mod batch;
pub mod bytes;
pub mod errors;
pub mod key;
pub mod point;
pub mod scalar;
pub mod signature;
pub mod transcript;

pub use self::batch::{BatchVerification, BatchVerifier, SingleVerifier};
pub use self::errors::ZkSchnorrError;
pub use self::key::{SigningKey, VerificationKey};
pub use self::point::CompressedPoint;
pub use self::scalar::Scalar;
pub use self::signature::Signature;
