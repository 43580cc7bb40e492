//! Error types of the library. Each failure kind is a distinct, inspectable
//! value; nothing is retried or swallowed internally.

use vstd::prelude::*;

use ark_ec::hashing::HashToCurveError;

verus! {

/// Failure of an algebraic primitive.
#[derive(Debug)]
pub enum AlgebraError {
    /// The hash-to-curve primitive rejected its domain tag or message.
    HashToCurve(HashToCurveError),
}

/// Failure of a protocol operation.
#[derive(Debug)]
pub enum ProtocolError {
    /// An algebra-layer failure, propagated unchanged.
    Algebra(AlgebraError),
    /// The randomness source could not supply the requested bytes.
    Rng(String),
    /// A structural precondition on the inputs was violated.
    InvalidInput(String),
}

} // verus!
