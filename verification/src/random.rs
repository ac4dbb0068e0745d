//! The seeded generator that a player's bag and garbage draw from, and what
//! this crate takes on trust about it.
use crate::tetromino::TetrominoVariant;
use rand::rngs::StdRng;
use rand::seq::SliceRandom;
use rand::Rng;
use rand::SeedableRng;
use vstd::prelude::*;

verus! {

/// `rand::rngs::StdRng`, carried through as it is.
#[verifier::external_type_specification]
#[verifier::external_body]
pub struct ExStdRng(StdRng);

/// What a generator holds: the words of its state. Every value it hands out,
/// and the state it is left in, is decided by them. The generator is
/// deterministic; two peers that run one build of it draw alike.
pub uninterp spec fn generator_state(rng: StdRng) -> Seq<u32>;

/// The state of a generator that `SeedableRng::seed_from_u64` made from `seed`.
pub uninterp spec fn seeded_state(seed: u64) -> Seq<u32>;

/// What `SliceRandom::shuffle` makes of `items` with a generator in `state`:
/// the items in their new order, and the state the generator is left in.
pub uninterp spec fn shuffle_outcome(state: Seq<u32>, items: Seq<TetrominoVariant>) -> (
    Seq<TetrominoVariant>,
    Seq<u32>,
);

/// What `Rng::gen_range(0..high)` gives with a generator in `state`: the number
/// drawn, and the state the generator is left in.
pub uninterp spec fn range_outcome(state: Seq<u32>, high: i32) -> (i32, Seq<u32>);

/// Calls `StdRng::seed_from_u64`. Trusted: the generator it returns is in the
/// state that the seed alone decides.
#[verifier::external_body]
pub(crate) fn generator_from_seed(seed: u64) -> (rng: StdRng)
    ensures
        generator_state(rng) == seeded_state(seed),
{
    StdRng::seed_from_u64(seed)
}

/// Calls `SliceRandom::shuffle` on `items`. Trusted: the shuffle only swaps
/// items, so the same items come out, each as often as it went in; their order
/// and the generator's new state are decided by its old state and the items.
#[verifier::external_body]
pub(crate) fn shuffle(items: &mut Vec<TetrominoVariant>, rng: &mut StdRng)
    ensures
        final(items)@ == shuffle_outcome(generator_state(*old(rng)), old(items)@).0,
        generator_state(*final(rng)) == shuffle_outcome(generator_state(*old(rng)), old(items)@).1,
        final(items)@.to_multiset() == old(items)@.to_multiset(),
{
    items.shuffle(rng)
}

/// Calls `Rng::gen_range(0..high)`. Trusted: the number drawn is at least 0
/// and below `high`; it and the generator's new state are decided by its old
/// state and `high`. An empty range, on which the call panics, is left out.
#[verifier::external_body]
pub(crate) fn draw_below(rng: &mut StdRng, high: i32) -> (drawn: i32)
    requires
        0 < high,
    ensures
        0 <= drawn < high,
        drawn == range_outcome(generator_state(*old(rng)), high).0,
        generator_state(*final(rng)) == range_outcome(generator_state(*old(rng)), high).1,
{
    rng.gen_range(0..high)
}

} // verus!
