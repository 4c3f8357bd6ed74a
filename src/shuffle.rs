//! The seeded shuffle: a Fisher–Yates pass driven by a ChaCha20 generator
//! whose state is expanded from a 64-bit seed.
use rand::seq::SliceRandom;
use rand::SeedableRng;
use vstd::prelude::*;

verus! {

/// The arrangement that the seeded shuffle gives a list of `len` entries:
/// entry `i` of the result is entry `shuffle_order(seed, len)[i]` of the input.
pub uninterp spec fn shuffle_order(seed: u64, len: nat) -> Seq<int>;

/// The list `s` after the seeded shuffle with `seed`.
pub open spec fn shuffled<T>(seed: u64, s: Seq<T>) -> Seq<T> {
    Seq::new(s.len(), |i: int| s[shuffle_order(seed, s.len())[i]])
}

/// Relies on rand_chacha's `ChaCha20Rng::seed_from_u64` and rand's
/// `SliceRandom::shuffle`: the generator depends on the seed alone, and the
/// shuffle only swaps entries, at positions drawn from the generator and the
/// length, never from the entries themselves.
#[verifier::external_body]
fn shuffle_seeded<T>(seed: u64, v: &mut Vec<T>)
    ensures
        final(v)@.len() == old(v)@.len(),
        forall|i: int|
            0 <= i < old(v)@.len() ==> #[trigger] final(v)@[i] == old(v)@[shuffle_order(
                seed,
                old(v)@.len(),
            )[i]],
        final(v)@.to_multiset() == old(v)@.to_multiset(),
{
    let mut rng = rand_chacha::ChaCha20Rng::seed_from_u64(seed);
    v.as_mut_slice().shuffle(&mut rng);
}

/// The names in the order that `seed` gives them: the same entries, each as
/// often as in `names`, arranged by the seed and the length alone.
pub fn shuffle_names(seed: u64, names: &Vec<String>) -> (r: Vec<String>)
    ensures
        r@ == shuffled(seed, names@),
        r@.len() == names@.len(),
        r@.to_multiset() == names@.to_multiset(),
{
    let mut out = names.clone();
    assert(out@ == names@);
    shuffle_seeded(seed, &mut out);
    assert(out@ =~= shuffled(seed, names@));
    out
}

/// The seeded shuffle is a function of its seed and its list: the same seed
/// applied to the same list gives the same order every time.
pub proof fn lemma_shuffle_deterministic<T>(seed: u64, a: Seq<T>, b: Seq<T>)
    requires
        a == b,
    ensures
        shuffled(seed, a) == shuffled(seed, b),
{
}

/// A reordering of a list (the same entries, each as often) has its length,
/// its entries and no others, and no repeats where the list had none.
pub proof fn lemma_reordering_keeps_entries<T>(names: Seq<T>, out: Seq<T>)
    requires
        out.to_multiset() == names.to_multiset(),
    ensures
        out.len() == names.len(),
        forall|x: T| #[trigger] out.contains(x) <==> names.contains(x),
        names.no_duplicates() ==> out.no_duplicates(),
{
    names.to_multiset_ensures();
    out.to_multiset_ensures();
    assert forall|x: T| #[trigger] out.contains(x) <==> names.contains(x) by {
        assert(out.contains(x) <==> out.to_multiset().count(x) > 0);
        assert(names.contains(x) <==> names.to_multiset().count(x) > 0);
    }
    if names.no_duplicates() {
        names.lemma_multiset_has_no_duplicates();
        out.lemma_multiset_has_no_duplicates_conv();
    }
}

} // verus!
