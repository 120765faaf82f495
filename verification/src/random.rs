//! The random draws of the game, made through the `rand` crate.

use vstd::prelude::*;
use rand::rngs::ThreadRng;
use rand::seq::SliceRandom;
use rand::Rng;
use crate::geometry::{
    is_spawn_cell, Color, Direction, Position, MAX_CENTER_X, MAX_CENTER_Y, MIN_CENTER_X,
    MIN_CENTER_Y,
};
use crate::spawn::{candidates, lemma_candidates, spawn_candidates};

verus! {

/// The thread-local generator of `rand`, opaque to the verifier.
#[verifier::external_type_specification]
#[verifier::external_body]
pub struct ExThreadRng(ThreadRng);

/// Calls `rand::thread_rng`, which hands out the calling thread's generator.
/// Nothing is claimed of it.
#[verifier::external_body]
pub(crate) fn new_rng() -> ThreadRng {
    rand::thread_rng()
}

/// Calls `rand::Rng::gen_range` on the inclusive range from `low` to `high`.
/// Trusted: the number drawn lies in that range. The call panics on an empty
/// range, which the precondition leaves out.
#[verifier::external_body]
pub(crate) fn random_between(rng: &mut ThreadRng, low: usize, high: usize) -> (r: usize)
    requires
        low <= high,
    ensures
        low <= r <= high,
{
    rng.gen_range(low..=high)
}

/// Calls `rand::seq::SliceRandom::choose` on the list. Trusted: the result is
/// `None` for an empty list and else one of the list's elements.
#[verifier::external_body]
pub(crate) fn pick(rng: &mut ThreadRng, list: &Vec<(Direction, Position)>) -> (r: Option<
    (Direction, Position),
>)
    ensures
        list@.len() == 0 ==> r is None,
        list@.len() > 0 ==> r is Some && list@.contains(r->0),
{
    list.choose(rng).copied()
}

/// Draws a colour, each with the same chance.
pub fn random_color(rng: &mut ThreadRng) -> (c: Color) {
    let i: usize = random_between(rng, 0, 3);
    Color::from_index(i)
}

/// Draws a cell of the core zone.
pub fn random_core_cell(rng: &mut ThreadRng) -> (p: Position)
    ensures
        p.in_core(),
        p.in_bounds(),
{
    let x: usize = random_between(rng, MIN_CENTER_X, MAX_CENTER_X);
    let y: usize = random_between(rng, MIN_CENTER_Y, MAX_CENTER_Y);
    Position { x, y }
}

/// Draws where the next enemy enters: one of the candidates for the given
/// last direction, each with the same chance. The direction drawn is never
/// the last one.
pub fn select_spawn(rng: &mut ThreadRng, last: Option<Direction>) -> (r: (Direction, Position))
    ensures
        candidates(last).contains(r),
        Some(r.0) != last,
        is_spawn_cell(r.0, r.1),
{
    let list = spawn_candidates(last);
    proof {
        lemma_candidates(last);
    }
    match pick(rng, &list) {
        Some(c) => c,
        None => vstd::pervasive::unreached(),
    }
}

} // verus!
