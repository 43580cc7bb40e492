//! Data model: identities, tags, labels, keys, signature shares, labeled
//! programs and aggregates.
//!
//! Identities and tags are fixed-length byte strings of length `K`, a
//! compile-time constant shared by every entity of one deployment; the type
//! system prevents mixing entities built under different lengths.

use vstd::prelude::*;

use crate::algebra::{G1, G2, Scalar};
use crate::errors::ProtocolError;

verus! {

/// Identity of a signer: an opaque byte string of exactly `K` bytes.
/// Equality is structural (byte-for-byte).
#[derive(Clone, Copy, Debug, Eq, Hash)]
pub struct Id<const K: usize>(pub [u8; K]);

impl<const K: usize> PartialEq for Id<K> {
    fn eq(&self, other: &Id<K>) -> (r: bool) {
        let mut i: usize = 0;
        while i < K
            invariant
                0 <= i <= K,
                forall|j: int| 0 <= j < i ==> self.0@[j] == other.0@[j],
            decreases K - i,
        {
            if self.0[i] != other.0[i] {
                return false;
            }
            i = i + 1;
        }
        proof {
            assert(self.0@ =~= other.0@);
        }
        true
    }
}

impl<const K: usize> vstd::std_specs::cmp::PartialEqSpecImpl for Id<K> {
    open spec fn obeys_eq_spec() -> bool {
        true
    }

    open spec fn eq_spec(&self, other: &Id<K>) -> bool {
        self.0@ == other.0@
    }
}

/// Tag disambiguating multiple labels issued by one identity: an opaque byte
/// string of exactly `K` bytes, supplied by the caller.
#[derive(Clone, Copy, Debug)]
pub struct Tag<const K: usize>(pub [u8; K]);

/// A label names one signed message instance: the pair of a signer identity
/// and a tag.
#[derive(Clone, Copy, Debug)]
pub struct Label<const K: usize> {
    pub id: Id<K>,
    pub tag: Tag<K>,
}

impl<const K: usize> Label<K> {
    pub fn new(id: Id<K>, tag: Tag<K>) -> (r: Self)
        ensures
            r.id == id,
            r.tag == tag,
    {
        Self { id, tag }
    }

    /// Canonical byte encoding of the label: the identity's bytes immediately
    /// followed by the tag's bytes, `2 * K` bytes in all, no delimiter.
    /// The fixed lengths make the encoding injective.
    pub fn to_bytes(&self) -> (r: Vec<u8>)
        ensures
            r@ == self.spec_bytes(),
            r@.len() == 2 * K,
    {
        let mut out: Vec<u8> = Vec::new();
        let mut i: usize = 0;
        while i < K
            invariant
                0 <= i <= K,
                out@ == self.id.0@.take(i as int),
            decreases K - i,
        {
            out.push(self.id.0[i]);
            proof {
                assert(out@ =~= self.id.0@.take(i + 1));
            }
            i = i + 1;
        }
        proof {
            assert(out@ =~= self.id.0@);
        }
        let mut i: usize = 0;
        while i < K
            invariant
                0 <= i <= K,
                out@ == self.id.0@ + self.tag.0@.take(i as int),
            decreases K - i,
        {
            out.push(self.tag.0[i]);
            proof {
                assert(out@ =~= self.id.0@ + self.tag.0@.take(i + 1));
            }
            i = i + 1;
        }
        proof {
            assert(out@ =~= self.spec_bytes());
        }
        out
    }

    /// The canonical encoding, at the specification level.
    pub open spec fn spec_bytes(&self) -> Seq<u8> {
        self.id.0@ + self.tag.0@
    }

    pub fn id(&self) -> (r: Id<K>)
        ensures
            r == self.id,
    {
        self.id
    }

    pub fn tag(&self) -> (r: Tag<K>)
        ensures
            r == self.tag,
    {
        self.tag
    }
}

/// Secret key of one signer: the identity and a nonzero scalar, exclusively
/// owned by the signer.
#[derive(Clone, Copy, Debug)]
pub struct SecretKey<const K: usize> {
    id: Id<K>,
    value: Scalar,
}

impl<const K: usize> SecretKey<K> {
    pub closed spec fn spec_id(&self) -> Id<K> {
        self.id
    }

    pub closed spec fn spec_value(&self) -> Scalar {
        self.value
    }

    pub fn new(id: Id<K>, value: Scalar) -> (r: Self)
        ensures
            r.spec_id() == id,
            r.spec_value() == value,
    {
        Self { id, value }
    }

    pub fn id(&self) -> (r: Id<K>)
        ensures
            r == self.spec_id(),
    {
        self.id
    }

    pub fn value(&self) -> (r: &Scalar)
        ensures
            *r == self.spec_value(),
    {
        &self.value
    }

    pub fn into_parts(self) -> (r: (Id<K>, Scalar))
        ensures
            r.0 == self.spec_id(),
            r.1 == self.spec_value(),
    {
        (self.id, self.value)
    }
}

/// Public key of one signer: the identity and the secret scalar's multiple of
/// the second group's generator.
#[derive(Clone, Copy, Debug)]
pub struct PublicKey<const K: usize> {
    id: Id<K>,
    value: G2,
}

impl<const K: usize> PublicKey<K> {
    pub closed spec fn spec_id(&self) -> Id<K> {
        self.id
    }

    pub closed spec fn spec_value(&self) -> G2 {
        self.value
    }

    pub fn new(id: Id<K>, value: G2) -> (r: Self)
        ensures
            r.spec_id() == id,
            r.spec_value() == value,
    {
        Self { id, value }
    }

    pub fn id(&self) -> (r: &Id<K>)
        ensures
            *r == self.spec_id(),
    {
        &self.id
    }

    pub fn value(&self) -> (r: &G2)
        ensures
            *r == self.spec_value(),
    {
        &self.value
    }

    pub fn into_parts(self) -> (r: (Id<K>, G2))
        ensures
            r.0 == self.spec_id(),
            r.1 == self.spec_value(),
    {
        (self.id, self.value)
    }
}

/// One signer's signature over one labeled message: the signer identity, the
/// signature point, and the signed message scalar.
#[derive(Clone, Copy, Debug)]
pub struct SignShare<const K: usize> {
    id: Id<K>,
    gamma: G1,
    mu: Scalar,
}

impl<const K: usize> SignShare<K> {
    pub closed spec fn spec_id(&self) -> Id<K> {
        self.id
    }

    pub closed spec fn spec_gamma(&self) -> G1 {
        self.gamma
    }

    pub closed spec fn spec_mu(&self) -> Scalar {
        self.mu
    }

    pub fn new(id: Id<K>, gamma: G1, mu: Scalar) -> (r: Self)
        ensures
            r.spec_id() == id,
            r.spec_gamma() == gamma,
            r.spec_mu() == mu,
    {
        Self { id, gamma, mu }
    }

    pub fn id(&self) -> (r: Id<K>)
        ensures
            r == self.spec_id(),
    {
        self.id
    }

    pub fn gamma(&self) -> (r: &G1)
        ensures
            *r == self.spec_gamma(),
    {
        &self.gamma
    }

    pub fn mu(&self) -> (r: &Scalar)
        ensures
            *r == self.spec_mu(),
    {
        &self.mu
    }
}

/// The result of evaluation: the aggregated signature point, the distinct
/// signer identities in first-occurrence order, and, positionally paired with
/// them, each signer's combined message scalar.
#[derive(Debug)]
pub struct SignAggr<const K: usize> {
    gamma: G1,
    ord_ids: Vec<Id<K>>,
    mus: Vec<Scalar>,
}

impl<const K: usize> SignAggr<K> {
    pub closed spec fn spec_gamma(&self) -> G1 {
        self.gamma
    }

    pub closed spec fn spec_ord_ids(&self) -> Seq<Id<K>> {
        self.ord_ids@
    }

    pub closed spec fn spec_mus(&self) -> Seq<Scalar> {
        self.mus@
    }

    pub fn new(gamma: G1, ord_ids: Vec<Id<K>>, mus: Vec<Scalar>) -> (r: Self)
        ensures
            r.spec_gamma() == gamma,
            r.spec_ord_ids() == ord_ids@,
            r.spec_mus() == mus@,
    {
        Self { gamma, ord_ids, mus }
    }

    pub fn gamma(&self) -> (r: &G1)
        ensures
            *r == self.spec_gamma(),
    {
        &self.gamma
    }

    pub fn ord_ids(&self) -> (r: &[Id<K>])
        ensures
            r@ == self.spec_ord_ids(),
    {
        self.ord_ids.as_slice()
    }

    pub fn mus(&self) -> (r: &[Scalar])
        ensures
            r@ == self.spec_mus(),
    {
        self.mus.as_slice()
    }

    pub fn into_parts(self) -> (r: (G1, Vec<Scalar>))
        ensures
            r.0 == self.spec_gamma(),
            r.1@ == self.spec_mus(),
    {
        (self.gamma, self.mus)
    }
}

/// A public linear program: scalar coefficients positionally paired with the
/// labels they apply to. The two sequences always have the same length;
/// construction with mismatched lengths fails.
#[derive(Debug)]
pub struct LabeledProgram<const K: usize> {
    coeffs: Vec<Scalar>,
    labels: Vec<Label<K>>,
}

impl<const K: usize> LabeledProgram<K> {
    pub closed spec fn spec_coeffs(&self) -> Seq<Scalar> {
        self.coeffs@
    }

    pub closed spec fn spec_labels(&self) -> Seq<Label<K>> {
        self.labels@
    }

    /// Builds a program, rejecting mismatched coefficient/label counts with
    /// `InvalidInput`; a mismatch is never silently truncated.
    pub fn new(coeffs: Vec<Scalar>, labels: Vec<Label<K>>) -> (r: Result<Self, ProtocolError>)
        ensures
            r is Ok <==> coeffs@.len() == labels@.len(),
            r matches Ok(p) ==> p.spec_coeffs() == coeffs@ && p.spec_labels() == labels@,
            r matches Err(e) ==> e is InvalidInput,
    {
        if coeffs.len() != labels.len() {
            return Err(ProtocolError::InvalidInput(
                "coeffs and labels length mismatch".to_string(),
            ));
        }
        Ok(Self { coeffs, labels })
    }

    pub fn n(&self) -> (r: usize)
        ensures
            r == self.spec_coeffs().len(),
    {
        self.coeffs.len()
    }

    pub fn coeffs(&self) -> (r: &[Scalar])
        ensures
            r@ == self.spec_coeffs(),
    {
        self.coeffs.as_slice()
    }

    pub fn labels(&self) -> (r: &[Label<K>])
        ensures
            r@ == self.spec_labels(),
    {
        self.labels.as_slice()
    }
}

} // verus!
