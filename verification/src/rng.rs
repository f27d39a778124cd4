//! The seeded generator behind a random fill.

use vstd::prelude::*;
use crate::cell::CellState;
use rand::rngs::StdRng;
use rand::{RngCore, SeedableRng};

verus! {

/// `rand::rngs::StdRng`, carried through as it is: nothing is read from it.
#[verifier::external_type_specification]
#[verifier::external_body]
pub struct ExStdRng(rand::rngs::StdRng);

/// The generator that `StdRng::seed_from_u64` makes from `seed`.
pub uninterp spec fn rng_seeded(seed: u64) -> StdRng;

/// What `next_u64` gives on a generator in state `rng`: the word drawn, and
/// the generator after the draw.
pub uninterp spec fn rng_drawn(rng: StdRng) -> (u64, StdRng);

/// `rand::SeedableRng::seed_from_u64` for `StdRng`: the generator is a
/// function of the seed alone.
#[verifier::external_body]
pub(crate) fn seed_rng(seed: u64) -> (rng: StdRng)
    ensures
        rng == rng_seeded(seed),
{
    StdRng::seed_from_u64(seed)
}

/// `rand::RngCore::next_u64` for `StdRng`: the word drawn and the state
/// left behind are functions of the state before.
#[verifier::external_body]
pub(crate) fn next_word(rng: &mut StdRng) -> (word: u64)
    ensures
        (word, *final(rng)) == rng_drawn(*old(rng)),
{
    rng.next_u64()
}

/// `rand::random::<u64>`: a word from the generator of the thread, which the
/// system seeds. Nothing is promised of it.
#[verifier::external_body]
pub(crate) fn random_word() -> (word: u64) {
    rand::random::<u64>()
}

/// The generator seeded with `seed` after `k` draws.
pub open spec fn rng_after(seed: u64, k: nat) -> StdRng
    decreases k,
{
    if k == 0 {
        rng_seeded(seed)
    } else {
        rng_drawn(rng_after(seed, (k - 1) as nat)).1
    }
}

/// The `k`-th word, counted from 0, that the generator seeded with `seed`
/// gives.
pub open spec fn seeded_word(seed: u64, k: nat) -> u64 {
    rng_drawn(rng_after(seed, k)).0
}

/// The state that a random fill gives a cell for which `word` was drawn:
/// alive for an odd word, dead for an even one.
pub open spec fn state_of_word(word: u64) -> CellState {
    if word % 2 == 1 {
        CellState::Alive
    } else {
        CellState::Dead
    }
}

/// The state that a random fill gives a cell for which `word` was drawn.
pub fn cell_of_word(word: u64) -> (state: CellState)
    ensures
        state == state_of_word(word),
{
    if word % 2 == 0 {
        CellState::Dead
    } else {
        CellState::Alive
    }
}

} // verus!
