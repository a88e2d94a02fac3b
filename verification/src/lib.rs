//! Non-interactive Schnorr proofs of knowledge of a discrete logarithm over
//! secp256k1, with a fixed byte encoding for transport.

pub mod bytes;
pub mod common;
pub mod dlog_proof;
pub mod hash;
pub mod point;
pub mod scalar;
