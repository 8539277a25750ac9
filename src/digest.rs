//! An eight-byte digest: byte view, equality and a lexicographic total order.

use crate::hash::AsBytes;
use core::cmp::Ordering;
use vstd::laws_cmp::obeys_partial_cmp_spec_properties;
use vstd::laws_eq::obeys_eq_spec_properties;
use vstd::prelude::*;

verus! {

/// The `n` least significant bytes of `v`, most significant first.
pub open spec fn be_bytes(v: nat, n: nat) -> Seq<u8>
    decreases n,
{
    if n == 0 {
        Seq::empty()
    } else {
        be_bytes(v / 256, (n - 1) as nat).push((v % 256) as u8)
    }
}

/// Lexicographic comparison of two byte sequences: the first differing byte
/// decides, and a proper prefix comes first.
pub open spec fn lex_cmp(a: Seq<u8>, b: Seq<u8>) -> Ordering
    decreases a.len(),
{
    if a.len() == 0 && b.len() == 0 {
        Ordering::Equal
    } else if a.len() == 0 {
        Ordering::Less
    } else if b.len() == 0 {
        Ordering::Greater
    } else if a[0] < b[0] {
        Ordering::Less
    } else if a[0] > b[0] {
        Ordering::Greater
    } else {
        lex_cmp(a.drop_first(), b.drop_first())
    }
}

/// A 64-bit digest held as its eight bytes, most significant first.
#[derive(Clone, Copy, Debug, Eq, Ord)]
pub struct Digest64 {
    pub bytes: [u8; 8],
}

impl Digest64 {
    /// The digest whose bytes are those of `v`, most significant first.
    pub fn from_u64(v: u64) -> (d: Digest64)
        ensures
            d.bytes@ == be_bytes(v as nat, 8),
    {
        let mut bytes: [u8; 8] = [0u8; 8];
        let mut rest: u64 = v;
        let mut i: usize = 0;
        while i < 8
            invariant
                i <= 8,
                bytes@.len() == 8,
                be_bytes(v as nat, 8) == be_bytes(rest as nat, (8 - i) as nat) + bytes@.subrange(
                    8 - i,
                    8,
                ),
            decreases 8 - i,
        {
            let ghost before = bytes@;
            let b: u8 = (rest % 256) as u8;
            bytes[7 - i] = b;
            proof {
                let k = (8 - i) as nat;
                assert(be_bytes(rest as nat, k) == be_bytes(rest as nat / 256, (k - 1) as nat).push(
                    b,
                ));
                assert(bytes@.subrange(7 - i, 8) =~= seq![b] + before.subrange(8 - i, 8));
                assert(be_bytes(rest as nat / 256, (k - 1) as nat) + bytes@.subrange(7 - i, 8)
                    =~= be_bytes(rest as nat, k) + before.subrange(8 - i, 8));
            }
            rest = rest / 256;
            i = i + 1;
        }
        assert(bytes@.subrange(0, 8) =~= bytes@);
        assert(be_bytes(rest as nat, 0) + bytes@ =~= bytes@);
        Digest64 { bytes }
    }
}

impl AsBytes for Digest64 {
    open spec fn byte_view(&self) -> Seq<u8> {
        self.bytes@
    }

    fn as_bytes(&self) -> (r: &[u8]) {
        &self.bytes
    }
}

impl PartialEq for Digest64 {
    fn eq(&self, other: &Digest64) -> (r: bool) {
        let mut i: usize = 0;
        while i < 8
            invariant
                i <= 8,
                self.bytes@.len() == 8,
                other.bytes@.len() == 8,
                self.bytes@.subrange(0, i as int) == other.bytes@.subrange(0, i as int),
            decreases 8 - i,
        {
            if self.bytes[i] != other.bytes[i] {
                assert(self.bytes@[i as int] != other.bytes@[i as int]);
                return false;
            }
            assert(self.bytes@.subrange(0, i + 1) =~= self.bytes@.subrange(0, i as int).push(
                self.bytes@[i as int],
            ));
            assert(other.bytes@.subrange(0, i + 1) =~= other.bytes@.subrange(0, i as int).push(
                other.bytes@[i as int],
            ));
            i = i + 1;
        }
        assert(self.bytes@ =~= self.bytes@.subrange(0, 8));
        assert(other.bytes@ =~= other.bytes@.subrange(0, 8));
        true
    }
}

impl vstd::std_specs::cmp::PartialEqSpecImpl for Digest64 {
    open spec fn obeys_eq_spec() -> bool {
        true
    }

    open spec fn eq_spec(&self, other: &Digest64) -> bool {
        self.bytes@ == other.bytes@
    }
}

impl PartialOrd for Digest64 {
    fn partial_cmp(&self, other: &Digest64) -> (r: Option<Ordering>) {
        assert(self.bytes@.skip(0) =~= self.bytes@);
        assert(other.bytes@.skip(0) =~= other.bytes@);
        let mut i: usize = 0;
        while i < 8
            invariant
                i <= 8,
                self.bytes@.len() == 8,
                other.bytes@.len() == 8,
                lex_cmp(self.bytes@, other.bytes@) == lex_cmp(
                    self.bytes@.skip(i as int),
                    other.bytes@.skip(i as int),
                ),
            decreases 8 - i,
        {
            let a = self.bytes[i];
            let b = other.bytes[i];
            assert(self.bytes@.skip(i as int)[0] == a);
            assert(other.bytes@.skip(i as int)[0] == b);
            if a < b {
                return Some(Ordering::Less);
            } else if a > b {
                return Some(Ordering::Greater);
            }
            assert(self.bytes@.skip(i as int).drop_first() =~= self.bytes@.skip(i + 1));
            assert(other.bytes@.skip(i as int).drop_first() =~= other.bytes@.skip(i + 1));
            i = i + 1;
        }
        assert(self.bytes@.skip(8).len() == 0);
        assert(other.bytes@.skip(8).len() == 0);
        Some(Ordering::Equal)
    }
}

impl vstd::std_specs::cmp::PartialOrdSpecImpl for Digest64 {
    open spec fn obeys_partial_cmp_spec() -> bool {
        true
    }

    open spec fn partial_cmp_spec(&self, other: &Digest64) -> Option<Ordering> {
        Some(lex_cmp(self.bytes@, other.bytes@))
    }
}

} // verus!
