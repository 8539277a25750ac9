//! Hashing layer for items of a Merkle tree: values that feed themselves into a
//! streaming hash, algorithms that report and reset their digest, and digests
//! that show themselves as bytes.

pub mod default_algorithm;
pub mod digest;
pub mod hash;
pub mod laws;
pub mod primitives;
