//! Signer/evaluator side of a multi-key linearly homomorphic signature
//! (MKLHS) scheme over BLS12-381: key generation, per-message signing, and
//! homomorphic evaluation of a labeled linear program over signature shares.
//!
//! The algebraic primitives (scalar field, curve groups, hash-to-curve) come
//! from the arkworks crates and are used through a small trusted layer in
//! `algebra`; everything built on top of them is verified.

pub mod algebra;
pub mod errors;
pub mod params;
pub mod protocol;
pub mod types;
