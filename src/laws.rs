//! Laws that every algorithm, hashable value and digest of this crate obeys.

use crate::digest::{lex_cmp, Digest64};
use crate::hash::{Accumulator, Algorithm, AsBytes, Hashable};
use core::cmp::Ordering;
use vstd::laws_cmp::obeys_partial_cmp_spec_properties;
use vstd::laws_eq::obeys_eq_spec_properties;
use vstd::prelude::*;
use vstd::std_specs::cmp::{PartialEqSpec, PartialOrdSpec};

verus! {

/// Equal values hash alike: accumulators holding the same writes end with the
/// same digest after one is fed `a` and the other `b`.
pub proof fn lemma_coherence<T: AsBytes + Ord + Clone, H: Algorithm<T>, V: Hashable<H>>(
    a: V,
    b: V,
    start: Seq<Seq<u8>>,
)
    requires
        a == b,
    ensures
        H::digest_of(start + a.fed()) == H::digest_of(start + b.fed()),
{
}

/// Strings with the same characters hash alike, whatever their allocation.
pub proof fn lemma_string_coherence<T: AsBytes + Ord + Clone, H: Algorithm<T>>(
    a: String,
    b: String,
    start: Seq<Seq<u8>>,
)
    requires
        a@ == b@,
    ensures
        H::digest_of(start + <String as Hashable<H>>::fed(&a)) == H::digest_of(
            start + <String as Hashable<H>>::fed(&b),
        ),
{
}

/// A reset algorithm behaves as a fresh one: whatever is written afterwards,
/// both report the same digest.
pub proof fn lemma_reset_like_fresh<T: AsBytes + Ord + Clone, H: Algorithm<T>>(
    reset: H,
    fresh: H,
    later: Seq<Seq<u8>>,
)
    requires
        reset.written() == Seq::<Seq<u8>>::empty(),
        call_ensures(H::new, (), fresh),
    ensures
        H::digest_of(reset.written() + later) == H::digest_of(fresh.written() + later),
{
}

/// Reading the digest twice, with no write between, gives the same digest.
pub proof fn lemma_read_idempotent<T: AsBytes + Ord + Clone, H: Algorithm<T>>(
    h: H,
    first: T,
    second: T,
)
    requires
        call_ensures(H::hash, (&h,), first),
        call_ensures(H::hash, (&h,), second),
    ensures
        first == second,
{
}

/// Hashing a sequence element by element, in order, ends with the writes that
/// `hash_slice` makes for the whole sequence: `states[i]` is the accumulator's
/// writes before element `i` is hashed.
pub proof fn lemma_slice_matches_elementwise<H: Accumulator, V: Hashable<H>>(
    s: Seq<V>,
    states: Seq<Seq<Seq<u8>>>,
)
    requires
        states.len() == s.len() + 1,
        forall|i: int| 0 <= i < s.len() ==> states[i + 1] == states[i] + #[trigger] s[i].fed(),
    ensures
        states.last() == states[0] + s.map_values(|v: V| v.fed()).flatten(),
    decreases s.len(),
{
    let f = |v: V| v.fed();
    if s.len() == 0 {
        assert(s.map_values(f).len() == 0);
        assert(s.map_values(f).flatten() =~= Seq::<Seq<u8>>::empty());
        assert(states.last() =~= states[0] + s.map_values(f).flatten());
    } else {
        let n = s.len() - 1;
        let shorter = states.drop_last();
        assert forall|i: int| 0 <= i < s.drop_last().len() implies shorter[i + 1] == shorter[i]
            + #[trigger] s.drop_last()[i].fed() by {
            assert(s.drop_last()[i] == s[i]);
        }
        lemma_slice_matches_elementwise::<H, V>(s.drop_last(), shorter);
        assert(s.map_values(f) =~= s.drop_last().map_values(f).push(s[n].fed()));
        s.drop_last().map_values(f).lemma_flatten_push(s[n].fed());
        assert(states[n + 1] == states[n] + s[n].fed());
        assert(states.last() =~= states[0] + s.map_values(f).flatten());
    }
}

/// A digest shows the same bytes every time it is asked.
pub proof fn lemma_as_bytes_stable<D: AsBytes>(d: D, first: &[u8], second: &[u8])
    requires
        call_ensures(D::as_bytes, (&d,), first),
        call_ensures(D::as_bytes, (&d,), second),
    ensures
        first@ == second@,
{
}

/// Lexicographic comparison is `Equal` exactly on equal sequences.
proof fn lemma_lex_equal(a: Seq<u8>, b: Seq<u8>)
    ensures
        lex_cmp(a, b) == Ordering::Equal <==> a == b,
    decreases a.len(),
{
    if a.len() > 0 && b.len() > 0 && a[0] == b[0] {
        lemma_lex_equal(a.drop_first(), b.drop_first());
        if a.drop_first() == b.drop_first() {
            assert(a =~= seq![a[0]] + a.drop_first());
            assert(b =~= seq![b[0]] + b.drop_first());
        }
    } else if a.len() == 0 && b.len() == 0 {
        assert(a =~= b);
    }
}

/// Swapping the arguments of a lexicographic comparison reverses it.
proof fn lemma_lex_antisymmetric(a: Seq<u8>, b: Seq<u8>)
    ensures
        lex_cmp(a, b) == Ordering::Less <==> lex_cmp(b, a) == Ordering::Greater,
    decreases a.len(),
{
    if a.len() > 0 && b.len() > 0 && a[0] == b[0] {
        lemma_lex_antisymmetric(a.drop_first(), b.drop_first());
    }
}

/// Lexicographic `Less` is transitive.
proof fn lemma_lex_less_transitive(a: Seq<u8>, b: Seq<u8>, c: Seq<u8>)
    requires
        lex_cmp(a, b) == Ordering::Less,
        lex_cmp(b, c) == Ordering::Less,
    ensures
        lex_cmp(a, c) == Ordering::Less,
    decreases a.len(),
{
    if a.len() > 0 && b.len() > 0 && c.len() > 0 && a[0] == b[0] && b[0] == c[0] {
        lemma_lex_less_transitive(a.drop_first(), b.drop_first(), c.drop_first());
    }
}

/// Digests are totally ordered: their comparison is `Equal` exactly when they
/// are equal, swapping the arguments reverses it, and `Less` and `Greater`
/// are transitive.
pub proof fn lemma_digest_order()
    ensures
        obeys_partial_cmp_spec_properties::<Digest64>(),
{
    reveal(obeys_partial_cmp_spec_properties);
    reveal(obeys_eq_spec_properties);
    assert forall|x: Digest64, y: Digest64| #[trigger]
        x.partial_cmp_spec(&y) == Some(Ordering::Equal) <==> x.eq_spec(&y) by {
        lemma_lex_equal(x.bytes@, y.bytes@);
    }
    assert forall|x: Digest64, y: Digest64| #[trigger]
        x.partial_cmp_spec(&y) == Some(Ordering::Less) <==> y.partial_cmp_spec(&x) == Some(
            Ordering::Greater,
        ) by {
        lemma_lex_antisymmetric(x.bytes@, y.bytes@);
    }
    assert forall|x: Digest64, y: Digest64, z: Digest64|
        x.partial_cmp_spec(&y) == Some(Ordering::Less) && #[trigger] y.partial_cmp_spec(&z)
            == Some(Ordering::Less) implies #[trigger] x.partial_cmp_spec(&z) == Some(
        Ordering::Less,
    ) by {
        lemma_lex_less_transitive(x.bytes@, y.bytes@, z.bytes@);
    }
    assert forall|x: Digest64, y: Digest64, z: Digest64|
        x.partial_cmp_spec(&y) == Some(Ordering::Greater) && #[trigger] y.partial_cmp_spec(&z)
            == Some(Ordering::Greater) implies #[trigger] x.partial_cmp_spec(&z) == Some(
        Ordering::Greater,
    ) by {
        lemma_lex_antisymmetric(x.bytes@, y.bytes@);
        lemma_lex_antisymmetric(y.bytes@, z.bytes@);
        lemma_lex_antisymmetric(x.bytes@, z.bytes@);
        lemma_lex_less_transitive(z.bytes@, y.bytes@, x.bytes@);
    }
}

} // verus!
