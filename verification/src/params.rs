//! Public parameters shared by all operations of one deployment.

use vstd::prelude::*;
use vstd::string::StringSliceAdditionalSpecFns;

use crate::algebra::{h2g1_dst, make_h2g1, H2G1};

verus! {

/// Byte encoding of the fixed domain-separation tag used for hashing label
/// encodings into the first group. Changing it breaks interoperability with
/// existing shares.
pub open spec fn spec_dst_h2g1_label() -> Seq<u8> {
    "MKLHS-AP-2019-830:ELL->G1:BLS12-381:V01".spec_bytes()
}

/// Parameter context: carries the domain-separation tag, the hash-to-curve
/// instance built once for that tag and reused by every signing operation,
/// and the identity/tag byte length `K` as a type parameter. Immutable once
/// constructed and safe to share.
pub struct Params<const K: usize> {
    dst_h2g1_label: &'static [u8],
    h2g1_label: H2G1,
}

impl<const K: usize> Params<K> {
    /// The domain-separation tag, at the specification level.
    pub closed spec fn spec_dst(&self) -> Seq<u8> {
        self.dst_h2g1_label@
    }

    /// The cached hash-to-curve instance, at the specification level.
    pub closed spec fn spec_h2g1_label(&self) -> H2G1 {
        self.h2g1_label
    }

    /// `K` is the fixed byte length of the identity and tag space. Builds
    /// the hash-to-curve instance once; building cannot fail for this suite,
    /// so construction is total.
    pub fn new() -> (r: Self)
        ensures
            r.spec_dst() == spec_dst_h2g1_label(),
            h2g1_dst(r.spec_h2g1_label()) == spec_dst_h2g1_label(),
    {
        let dst = "MKLHS-AP-2019-830:ELL->G1:BLS12-381:V01".as_bytes();
        let h2g1_label = match make_h2g1(dst) {
            Ok(h) => h,
            Err(_) => unreached(),
        };
        Self { dst_h2g1_label: dst, h2g1_label }
    }

    pub fn dst_h2g1_label(&self) -> (r: &'static [u8])
        ensures
            r@ == self.spec_dst(),
    {
        self.dst_h2g1_label
    }

    pub fn h2g1_label(&self) -> (r: &H2G1)
        ensures
            *r == self.spec_h2g1_label(),
    {
        &self.h2g1_label
    }
}

} // verus!
