//! Trusted boundary to the arkworks algebra: the BLS12-381 scalar field, the
//! two curve groups with their generators, and the domain-separated
//! hash-to-curve function.
//!
//! `Scalar`, `G1` and `G2` each hold one arkworks value and are opaque to the
//! verifier; every operation on them goes through a trusted wrapper below.
//!
//! The specification model is arithmetic modulo the prime order of the scalar
//! field. `fr_val` maps a scalar to its canonical integer representative;
//! since both curve groups are cyclic of that same prime order, `g1_val` and
//! `g2_val` map a point to its discrete logarithm with respect to the fixed
//! generator (an abstraction function; it is never computed). Every trusted
//! contract below states how the underlying group or field operation acts on
//! these models, which is exactly the algebraic law the arkworks
//! documentation gives for it.
//!
//! The fields of `Scalar`, `G1` and `G2` are private, so every value of them
//! is produced by the wrappers below; in particular a `G1` or `G2` always
//! holds a point of the prime-order subgroup, on which the
//! discrete-logarithm abstraction is total.

use vstd::prelude::*;

use ark_bls12_381::{Fr, G1Projective, G2Projective};
use ark_ec::hashing::HashToCurveError;
use ark_ec::hashing::curve_maps::wb::WBMap;
use ark_ec::hashing::{map_to_curve_hasher::MapToCurveBasedHasher, HashToCurve};
use ark_ec::{AffineRepr, PrimeGroup};
use ark_ff::field_hashers::DefaultFieldHasher;
use ark_ff::{AdditiveGroup, Zero};
use ark_std::rand::RngCore;
use ark_std::UniformRand;
use sha2::Sha256;

use crate::errors::AlgebraError;

verus! {

/// Scalar field element of BLS12-381. Opaque; holds the arkworks value.
#[verifier::external_body]
#[derive(Debug)]
pub struct Scalar {
    inner: Fr,
}

/// Relies on the held arkworks value being `Copy`: the clone is the same
/// value.
impl Clone for Scalar {
    #[verifier::external_body]
    fn clone(&self) -> (r: Self)
        ensures
            r == *self,
    {
        Scalar { inner: self.inner }
    }
}

impl Copy for Scalar {

}

/// Point of the first group of BLS12-381. Opaque; holds the arkworks value.
#[verifier::external_body]
#[derive(Debug)]
pub struct G1 {
    inner: G1Projective,
}

/// Relies on the held arkworks value being `Copy`: the clone is the same
/// value.
impl Clone for G1 {
    #[verifier::external_body]
    fn clone(&self) -> (r: Self)
        ensures
            r == *self,
    {
        G1 { inner: self.inner }
    }
}

impl Copy for G1 {

}

/// Point of the second group of BLS12-381. Opaque; holds the arkworks value.
#[verifier::external_body]
#[derive(Debug)]
pub struct G2 {
    inner: G2Projective,
}

/// Relies on the held arkworks value being `Copy`: the clone is the same
/// value.
impl Clone for G2 {
    #[verifier::external_body]
    fn clone(&self) -> (r: Self)
        ensures
            r == *self,
    {
        G2 { inner: self.inner }
    }
}

impl Copy for G2 {

}

/// Domain-separated hash-to-curve instance for the first group (the suite
/// for BLS12-381 G1 with SHA-256), bound to one domain tag when it is built.
/// Opaque; holds the arkworks value, so repeated signing reuses one
/// instance instead of rebuilding it.
#[verifier::external_body]
pub struct H2G1 {
    inner: MapToCurveBasedHasher<
        G1Projective,
        DefaultFieldHasher<Sha256, 128>,
        WBMap<ark_bls12_381::g1::Config>,
    >,
}

#[verifier::external_type_specification]
#[verifier::external_body]
pub struct ExHashToCurveError(HashToCurveError);

/// Order of the BLS12-381 scalar field, and of both curve groups.
pub open spec fn fr_order() -> int {
    52435875175126190479447740508185965837690552500527637822603658699938581184513int
}

/// Canonical integer representative of the scalar a `Scalar` holds: an
/// integer in `[0, fr_order())`.
pub uninterp spec fn fr_val(x: Scalar) -> int;

/// Discrete logarithm of the first-group point a `G1` holds, with respect to
/// the fixed generator returned by `g1_gen` (so the identity maps to 0 and
/// the generator to 1). Never computed; it exists because the group is
/// cyclic of prime order `fr_order()`.
pub uninterp spec fn g1_val(p: G1) -> int;

/// Discrete logarithm of the second-group point a `G2` holds, with respect
/// to the fixed generator returned by `g2_gen`.
pub uninterp spec fn g2_val(p: G2) -> int;

/// Discrete logarithm of the point that the domain-separated hash-to-curve
/// function returns for a given domain tag and message. The hash is a
/// deterministic function of exactly these two byte strings.
pub uninterp spec fn hash_val(dst: Seq<u8>, msg: Seq<u8>) -> int;

/// The domain-separation tag that a hash-to-curve instance was built with.
pub uninterp spec fn h2g1_dst(h: H2G1) -> Seq<u8>;

/// Relies on `PartialEq` for `ark_bls12_381::Fr`: field elements have one
/// canonical representation, so they are equal exactly when their canonical
/// integer values are.
#[verifier::external_body]
fn fr_eq(a: &Scalar, b: &Scalar) -> (r: bool)
    ensures
        r == (fr_val(*a) == fr_val(*b)),
{
    a.inner == b.inner
}

impl PartialEq for Scalar {
    fn eq(&self, other: &Scalar) -> bool {
        fr_eq(self, other)
    }
}

impl vstd::std_specs::cmp::PartialEqSpecImpl for Scalar {
    open spec fn obeys_eq_spec() -> bool {
        true
    }

    open spec fn eq_spec(&self, other: &Scalar) -> bool {
        fr_val(*self) == fr_val(*other)
    }
}

/// Relies on `PartialEq` for `ark_bls12_381::G1Projective`: it compares the
/// curve points themselves, and in a cyclic group of prime order two points
/// are equal exactly when their discrete logarithms are.
#[verifier::external_body]
fn g1_eq(a: &G1, b: &G1) -> (r: bool)
    ensures
        r == (g1_val(*a) == g1_val(*b)),
{
    a.inner == b.inner
}

impl PartialEq for G1 {
    fn eq(&self, other: &G1) -> bool {
        g1_eq(self, other)
    }
}

impl vstd::std_specs::cmp::PartialEqSpecImpl for G1 {
    open spec fn obeys_eq_spec() -> bool {
        true
    }

    open spec fn eq_spec(&self, other: &G1) -> bool {
        g1_val(*self) == g1_val(*other)
    }
}

/// Relies on `PartialEq` for `ark_bls12_381::G2Projective`, as for `G1`.
#[verifier::external_body]
fn g2_eq(a: &G2, b: &G2) -> (r: bool)
    ensures
        r == (g2_val(*a) == g2_val(*b)),
{
    a.inner == b.inner
}

impl PartialEq for G2 {
    fn eq(&self, other: &G2) -> bool {
        g2_eq(self, other)
    }
}

impl vstd::std_specs::cmp::PartialEqSpecImpl for G2 {
    open spec fn obeys_eq_spec() -> bool {
        true
    }

    open spec fn eq_spec(&self, other: &G2) -> bool {
        g2_val(*self) == g2_val(*other)
    }
}

/// Relies on `ark_ec::PrimeGroup::generator` for `G1Projective`: the fixed
/// generator of the first group; `g1_val` maps it to 1 by definition.
#[verifier::external_body]
pub fn g1_gen() -> (r: G1)
    ensures
        g1_val(r) == 1,
{
    G1 { inner: G1Projective::generator() }
}

/// Relies on `ark_ec::PrimeGroup::generator` for `G2Projective`: the fixed
/// generator of the second group; `g2_val` maps it to 1 by definition.
#[verifier::external_body]
pub fn g2_gen() -> (r: G2)
    ensures
        g2_val(r) == 1,
{
    G2 { inner: G2Projective::generator() }
}

/// Relies on `ark_ff::AdditiveGroup::ZERO` for `G1Projective`: the identity
/// element of the first group, whose discrete logarithm is 0.
#[verifier::external_body]
pub fn g1_zero() -> (r: G1)
    ensures
        g1_val(r) == 0,
{
    G1 { inner: G1Projective::ZERO }
}

/// Relies on point addition (`core::ops::Add`) for `G1Projective`: the group
/// is abelian and cyclic of order `fr_order()`, so discrete logarithms add
/// modulo the group order.
#[verifier::external_body]
pub fn g1_add(a: &G1, b: &G1) -> (r: G1)
    ensures
        g1_val(r) == (g1_val(*a) + g1_val(*b)) % fr_order(),
{
    G1 { inner: a.inner + b.inner }
}

/// Relies on scalar multiplication (`core::ops::Mul<Fr>`) for
/// `G1Projective`: multiplying a point by a scalar multiplies its discrete
/// logarithm by the scalar's canonical value, modulo the group order.
#[verifier::external_body]
pub fn g1_mul(p: &G1, c: &Scalar) -> (r: G1)
    ensures
        g1_val(r) == (g1_val(*p) * fr_val(*c)) % fr_order(),
{
    G1 { inner: p.inner * c.inner }
}

/// Relies on scalar multiplication (`core::ops::Mul<Fr>`) for
/// `G2Projective`, as for `g1_mul`.
#[verifier::external_body]
pub(crate) fn g2_mul(p: &G2, c: &Scalar) -> (r: G2)
    ensures
        g2_val(r) == (g2_val(*p) * fr_val(*c)) % fr_order(),
{
    G2 { inner: p.inner * c.inner }
}

/// Relies on `ark_ff::AdditiveGroup::ZERO` for `Fr`: the zero element of the
/// scalar field.
#[verifier::external_body]
pub fn fr_zero() -> (r: Scalar)
    ensures
        fr_val(r) == 0,
{
    Scalar { inner: Fr::ZERO }
}

/// Relies on `From<u64>` for `Fr`: the field element whose canonical value
/// is `n` (exact, because every `u64` is below the field order).
#[verifier::external_body]
pub fn fr_from_u64(n: u64) -> (r: Scalar)
    ensures
        fr_val(r) == n as int,
{
    Scalar { inner: Fr::from(n) }
}

/// Relies on field addition (`core::ops::Add`) for `Fr`: addition of
/// canonical representatives modulo the field order.
#[verifier::external_body]
pub fn fr_add(a: &Scalar, b: &Scalar) -> (r: Scalar)
    ensures
        fr_val(r) == (fr_val(*a) + fr_val(*b)) % fr_order(),
{
    Scalar { inner: a.inner + b.inner }
}

/// Relies on field multiplication (`core::ops::Mul`) for `Fr`:
/// multiplication of canonical representatives modulo the field order.
#[verifier::external_body]
pub fn fr_mul(a: &Scalar, b: &Scalar) -> (r: Scalar)
    ensures
        fr_val(r) == (fr_val(*a) * fr_val(*b)) % fr_order(),
{
    Scalar { inner: a.inner * b.inner }
}

/// Relies on `ark_ff::Zero::is_zero` for `Fr`: true exactly when the element
/// is the field's zero, whose canonical value is 0.
#[verifier::external_body]
pub fn fr_is_zero(a: &Scalar) -> (r: bool)
    ensures
        r == (fr_val(*a) == 0),
{
    a.inner.is_zero()
}

/// Relies on `ark_std::UniformRand::rand` for `Fr`: whatever element comes
/// back, its canonical value lies in `[0, fr_order())`.
#[verifier::external_body]
pub fn fr_random<R: RngCore>(rng: &mut R) -> (r: Scalar)
    ensures
        0 <= fr_val(r) < fr_order(),
{
    Scalar { inner: Fr::rand(rng) }
}

/// Relies on `rand_core::RngCore::try_fill_bytes`: fills a fresh buffer of
/// `K` bytes from the randomness source, or reports the source's error as a
/// string. Nothing is promised of the bytes themselves.
#[verifier::external_body]
pub(crate) fn random_bytes<const K: usize, R: RngCore>(rng: &mut R) -> (r: Result<
    [u8; K],
    String,
>) {
    let mut buf = [0u8; K];
    match rng.try_fill_bytes(&mut buf) {
        Ok(()) => Ok(buf),
        Err(e) => Err(e.to_string()),
    }
}

/// Relies on `MapToCurveBasedHasher::new`: builds the hash-to-curve
/// instance for the given domain tag. For this suite the call cannot fail:
/// the constructor only stores the field hasher (its parameter self-check is
/// compiled only into arkworks' own tests), so the result is always `Ok`,
/// and the instance is bound to exactly the given tag.
#[verifier::external_body]
pub fn make_h2g1(dst: &[u8]) -> (r: Result<H2G1, AlgebraError>)
    ensures
        r is Ok,
        r matches Ok(h) ==> h2g1_dst(h) == dst@,
{
    match MapToCurveBasedHasher::<
        G1Projective,
        DefaultFieldHasher<Sha256, 128>,
        WBMap<ark_bls12_381::g1::Config>,
    >::new(dst) {
        Ok(h) => Ok(H2G1 { inner: h }),
        Err(e) => Err(AlgebraError::HashToCurve(e)),
    }
}

/// Relies on `HashToCurve::hash` for `MapToCurveBasedHasher` (SHA-256
/// expander, simplified SWU map, isogeny, cofactor clearing): hashes the
/// message to a point of the prime-order subgroup of the first group. The
/// point is a deterministic function of the instance's domain tag and the
/// message alone, named `hash_val`. For this suite the call cannot fail:
/// every internal step returns a point for every tag and message, so the
/// result is always `Ok`.
#[verifier::external_body]
pub fn hash_to_g1_with(hasher: &H2G1, msg: &[u8]) -> (r: Result<G1, AlgebraError>)
    ensures
        r is Ok,
        r matches Ok(p) ==> g1_val(p) == hash_val(h2g1_dst(*hasher), msg@) && 0 <= g1_val(p)
            < fr_order(),
{
    match hasher.inner.hash(msg) {
        Ok(p) => Ok(G1 { inner: p.into_group() }),
        Err(e) => Err(AlgebraError::HashToCurve(e)),
    }
}

/// Hashes a message into the first group under the given domain-separation
/// tag, building the instance and hashing with it. Never fails for this
/// suite.
pub fn hash_to_g1(dst: &[u8], msg: &[u8]) -> (r: Result<G1, AlgebraError>)
    ensures
        r is Ok,
        r matches Ok(p) ==> g1_val(p) == hash_val(dst@, msg@) && 0 <= g1_val(p) < fr_order(),
{
    let h = match make_h2g1(dst) {
        Ok(h) => h,
        Err(e) => {
            return Err(e);
        },
    };
    hash_to_g1_with(&h, msg)
}

} // verus!
