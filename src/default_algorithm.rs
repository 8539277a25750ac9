//! An algorithm over std's `DefaultHasher`, which hashes with fixed keys and
//! so gives the same digest for the same writes on every run.

use crate::digest::{be_bytes, Digest64};
use crate::hash::{Accumulator, Algorithm};
use std::collections::hash_map::DefaultHasher;
use std::hash::Hasher;
use vstd::prelude::*;
use vstd::std_specs::hash::DefaultHasherAdditionalSpecFns;

verus! {

/// The digest whose bytes are `b`.
pub open spec fn digest_with_bytes(b: Seq<u8>) -> Digest64 {
    choose|d: Digest64| d.bytes@ == b
}

/// A hashing algorithm that feeds std's `DefaultHasher` and reports its
/// 64-bit result as an eight-byte digest.
pub struct DefaultAlgorithm {
    inner: DefaultHasher,
}

impl Accumulator for DefaultAlgorithm {
    closed spec fn written(&self) -> Seq<Seq<u8>> {
        self.inner@
    }

    fn write(&mut self, bytes: &[u8]) {
        self.inner.write(bytes);
    }
}

impl Algorithm<Digest64> for DefaultAlgorithm {
    open spec fn digest_of(written: Seq<Seq<u8>>) -> Digest64 {
        digest_with_bytes(be_bytes(DefaultHasher::spec_finish(written) as nat, 8))
    }

    fn new() -> (r: DefaultAlgorithm) {
        DefaultAlgorithm { inner: DefaultHasher::new() }
    }

    fn hash(&self) -> (r: Digest64) {
        let d = Digest64::from_u64(self.inner.finish());
        proof {
            let b = be_bytes(DefaultHasher::spec_finish(self.inner@) as nat, 8);
            let c = digest_with_bytes(b);
            assert(c.bytes@ == b);
            broadcast use vstd::array::axiom_array_ext_equal;

            assert(c.bytes =~= d.bytes);
        }
        d
    }

    fn reset(&mut self) {
        self.inner = DefaultHasher::new();
    }
}

} // verus!
