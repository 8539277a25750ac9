//! Hash infrastructure for items in a Merkle tree.
//!
//! An accumulator is modelled by the ordered sequence of writes it has taken
//! since it was created or last reset (`written`). A hashable value is modelled
//! by the writes it makes (`fed`), and an algorithm's digest is a function of
//! its writes (`digest_of`).

use vstd::prelude::*;

verus! {

/// A streaming hash primitive that consumes bytes incrementally.
pub trait Accumulator: Sized {
    /// The writes taken since creation or the last reset, in order.
    spec fn written(&self) -> Seq<Seq<u8>>;

    /// Feeds `bytes` into the running computation.
    fn write(&mut self, bytes: &[u8])
        ensures
            final(self).written() == old(self).written().push(bytes@),
    ;
}

/// A hashable type: it knows how to feed its logical content into an accumulator.
///
/// When two values are equal their writes must be equal too, so that they
/// hash to the same digest; `fed` being a function of the value states this.
pub trait Hashable<H: Accumulator> {
    /// The writes that hashing this value performs, in order.
    spec fn fed(&self) -> Seq<Seq<u8>>;

    /// Feeds this value into the given accumulator.
    fn hash(&self, state: &mut H)
        ensures
            final(state).written() == old(state).written() + self.fed(),
    ;

    /// Feeds a slice of this type into the given accumulator, element by
    /// element in order. An override must write exactly what the default does.
    fn hash_slice(data: &[Self], state: &mut H)
        where
            Self: Sized,
        ensures
            final(state).written() == old(state).written() + data@.map_values(
                |v: Self| v.fed(),
            ).flatten(),
    {
        let mut i: usize = 0;
        while i < data.len()
            invariant
                0 <= i <= data@.len(),
                state.written() == old(state).written() + data@.subrange(0, i as int).map_values(
                    |v: Self| v.fed(),
                ).flatten(),
            decreases data@.len() - i,
        {
            data[i].hash(state);
            proof {
                let f = |v: Self| v.fed();
                let prev = data@.subrange(0, i as int).map_values(f);
                assert(data@.subrange(0, i + 1).map_values(f) =~= prev.push(data@[i as int].fed()));
                prev.lemma_flatten_push(data@[i as int].fed());
            }
            i = i + 1;
        }
        assert(data@.subrange(0, data@.len() as int) =~= data@);
    }
}

/// Byte view of a hash item.
pub trait AsBytes {
    /// The bytes this value stands for.
    spec fn byte_view(&self) -> Seq<u8>;

    /// Represents a hash item as a sequence of bytes.
    fn as_bytes(&self) -> (r: &[u8])
        ensures
            r@ == self.byte_view(),
    ;
}

/// A hashing algorithm: an accumulator that reports the digest of what it was
/// fed so far and can be reset for reuse.
pub trait Algorithm<T: AsBytes + Ord + Clone>: Accumulator {
    /// The digest of a sequence of writes.
    spec fn digest_of(written: Seq<Seq<u8>>) -> T;

    /// A fresh instance, with nothing written.
    fn new() -> (r: Self)
        ensures
            r.written() == Seq::<Seq<u8>>::empty(),
    ;

    /// Returns the hash value for the data stream written so far; the state
    /// is left as it was.
    fn hash(&self) -> (r: T)
        ensures
            r == Self::digest_of(self.written()),
    ;

    /// Resets the state to that of a fresh instance.
    fn reset(&mut self)
        ensures
            final(self).written() == Seq::<Seq<u8>>::empty(),
    ;
}

} // verus!
