//! `Hashable` for integers, strings, vectors and tuples.
//!
//! Integers are written as their little-endian bytes, one write each, so that
//! digests do not depend on the machine. A string is written as its UTF-8
//! bytes followed by a single `0xff` byte, which keeps `("ab", "c")` and
//! `("a", "bc")` apart. A vector writes its elements in order, and a tuple its
//! fields in order.

use crate::hash::{Accumulator, Hashable};
use vstd::prelude::*;
use vstd::utf8::encode_utf8;

verus! {

/// The `n` least significant bytes of `v`, least significant first.
pub open spec fn le_bytes(v: nat, n: nat) -> Seq<u8>
    decreases n,
{
    if n == 0 {
        Seq::empty()
    } else {
        seq![(v % 256) as u8] + le_bytes(v / 256, (n - 1) as nat)
    }
}

/// The byte that closes every string.
pub const STR_TERMINATOR: u8 = 0xff;

/// Writes the `n` least significant bytes of `v`, least significant first.
fn write_le<H: Accumulator>(state: &mut H, v: u64, n: usize)
    requires
        n <= 8,
    ensures
        final(state).written() == old(state).written().push(le_bytes(v as nat, n as nat)),
{
    let mut out: Vec<u8> = Vec::new();
    let mut rest: u64 = v;
    let mut i: usize = 0;
    while i < n
        invariant
            i <= n,
            out@ + le_bytes(rest as nat, (n - i) as nat) == le_bytes(v as nat, n as nat),
        decreases n - i,
    {
        let ghost before = out@;
        out.push((rest % 256) as u8);
        proof {
            let k = (n - i) as nat;
            assert(le_bytes(rest as nat, k) == seq![(rest as nat % 256) as u8] + le_bytes(
                rest as nat / 256,
                (k - 1) as nat,
            ));
            assert(out@ + le_bytes(rest as nat / 256, (k - 1) as nat) =~= before + le_bytes(
                rest as nat,
                k,
            ));
        }
        rest = rest / 256;
        i = i + 1;
    }
    assert(out@ =~= out@ + le_bytes(rest as nat, 0));
    state.write(out.as_slice());
}

impl<H: Accumulator> Hashable<H> for u8 {
    open spec fn fed(&self) -> Seq<Seq<u8>> {
        seq![le_bytes(*self as nat, 1)]
    }

    fn hash(&self, state: &mut H) {
        write_le(state, *self as u64, 1);
    }
}

impl<H: Accumulator> Hashable<H> for u16 {
    open spec fn fed(&self) -> Seq<Seq<u8>> {
        seq![le_bytes(*self as nat, 2)]
    }

    fn hash(&self, state: &mut H) {
        write_le(state, *self as u64, 2);
    }
}

impl<H: Accumulator> Hashable<H> for u32 {
    open spec fn fed(&self) -> Seq<Seq<u8>> {
        seq![le_bytes(*self as nat, 4)]
    }

    fn hash(&self, state: &mut H) {
        write_le(state, *self as u64, 4);
    }
}

impl<H: Accumulator> Hashable<H> for u64 {
    open spec fn fed(&self) -> Seq<Seq<u8>> {
        seq![le_bytes(*self as nat, 8)]
    }

    fn hash(&self, state: &mut H) {
        write_le(state, *self, 8);
    }
}

impl<H: Accumulator> Hashable<H> for str {
    open spec fn fed(&self) -> Seq<Seq<u8>> {
        seq![encode_utf8(self@), seq![STR_TERMINATOR]]
    }

    fn hash(&self, state: &mut H) {
        state.write(self.as_bytes());
        let tail: [u8; 1] = [STR_TERMINATOR];
        state.write(&tail);
        assert(tail@ =~= seq![STR_TERMINATOR]);
        assert(state.written() =~= old(state).written() + seq![
            encode_utf8(self@),
            seq![STR_TERMINATOR],
        ]);
    }
}

impl<H: Accumulator> Hashable<H> for String {
    open spec fn fed(&self) -> Seq<Seq<u8>> {
        seq![encode_utf8(self@), seq![STR_TERMINATOR]]
    }

    fn hash(&self, state: &mut H) {
        self.as_str().hash(state);
    }
}

impl<H: Accumulator, V: Hashable<H>> Hashable<H> for Vec<V> {
    open spec fn fed(&self) -> Seq<Seq<u8>> {
        self@.map_values(|v: V| v.fed()).flatten()
    }

    fn hash(&self, state: &mut H) {
        V::hash_slice(self.as_slice(), state);
    }
}

impl<H: Accumulator, A: Hashable<H>, B: Hashable<H>> Hashable<H> for (A, B) {
    open spec fn fed(&self) -> Seq<Seq<u8>> {
        self.0.fed() + self.1.fed()
    }

    fn hash(&self, state: &mut H) {
        self.0.hash(state);
        self.1.hash(state);
        assert(state.written() =~= old(state).written() + self.fed());
    }
}

impl<H: Accumulator, A: Hashable<H>, B: Hashable<H>, C: Hashable<H>> Hashable<H> for (A, B, C) {
    open spec fn fed(&self) -> Seq<Seq<u8>> {
        self.0.fed() + self.1.fed() + self.2.fed()
    }

    fn hash(&self, state: &mut H) {
        self.0.hash(state);
        self.1.hash(state);
        self.2.hash(state);
        assert(state.written() =~= old(state).written() + self.fed());
    }
}

} // verus!
