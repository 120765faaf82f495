//! Where enemies may enter the field.

use vstd::prelude::*;
use crate::geometry::{
    is_spawn_cell, Direction, Position, GRID_HEIGHT, GRID_WIDTH, MAX_CENTER_X, MAX_CENTER_Y,
    MIN_CENTER_X, MIN_CENTER_Y,
};

verus! {

/// Number of lanes that enter the field from the edge where enemies moving
/// in direction `d` start.
pub open spec fn lane_count(d: Direction) -> int {
    if d.is_horizontal() {
        MAX_CENTER_Y - MIN_CENTER_Y + 1
    } else {
        MAX_CENTER_X - MIN_CENTER_X + 1
    }
}

/// The edge cell of lane number `i` for enemies moving in direction `d`.
pub open spec fn edge_cell(d: Direction, i: int) -> Position {
    match d {
        Direction::Down => Position { x: (MIN_CENTER_X + i) as usize, y: 0 },
        Direction::Up => Position { x: (MIN_CENTER_X + i) as usize, y: (GRID_HEIGHT - 1) as usize },
        Direction::Right => Position { x: 0, y: (MIN_CENTER_Y + i) as usize },
        Direction::Left => Position { x: (GRID_WIDTH - 1) as usize, y: (MIN_CENTER_Y + i) as usize },
    }
}

/// The candidates that direction `d` contributes: none if it is the
/// excluded one, else its edge cells in order.
pub open spec fn lanes(d: Direction, excluded: Option<Direction>) -> Seq<(Direction, Position)> {
    if excluded == Some(d) {
        Seq::empty()
    } else {
        Seq::new(lane_count(d) as nat, |i: int| (d, edge_cell(d, i)))
    }
}

/// All candidates for a spawn after one in direction `last`: those of Down,
/// Up, Right and Left, in this order, without those of `last`.
pub open spec fn candidates(last: Option<Direction>) -> Seq<(Direction, Position)> {
    lanes(Direction::Down, last) + lanes(Direction::Up, last) + lanes(Direction::Right, last)
        + lanes(Direction::Left, last)
}

/// There is always a candidate, none has the excluded direction, and each
/// is an edge cell of a lane of its direction.
pub proof fn lemma_candidates(last: Option<Direction>)
    ensures
        candidates(last).len() >= 12,
        forall|i: int|
            0 <= i < candidates(last).len() ==> Some((#[trigger] candidates(last)[i]).0) != last
                && is_spawn_cell(candidates(last)[i].0, candidates(last)[i].1),
{
}

fn push_lanes(list: &mut Vec<(Direction, Position)>, d: Direction, excluded: Option<Direction>)
    ensures
        final(list)@ == old(list)@ + lanes(d, excluded),
{
    let skip = match excluded {
        Some(x) => x == d,
        None => false,
    };
    if skip {
        assert(list@ =~= list@ + lanes(d, excluded));
        return ;
    }
    let n: usize = match d {
        Direction::Left | Direction::Right => MAX_CENTER_Y - MIN_CENTER_Y + 1,
        Direction::Up | Direction::Down => MAX_CENTER_X - MIN_CENTER_X + 1,
    };
    let mut i: usize = 0;
    while i < n
        invariant
            i <= n,
            n == lane_count(d),
            excluded != Some(d),
            list@ == old(list)@ + lanes(d, excluded).subrange(0, i as int),
        decreases n - i,
    {
        let p = match d {
            Direction::Down => Position { x: MIN_CENTER_X + i, y: 0 },
            Direction::Up => Position { x: MIN_CENTER_X + i, y: GRID_HEIGHT - 1 },
            Direction::Right => Position { x: 0, y: MIN_CENTER_Y + i },
            Direction::Left => Position { x: GRID_WIDTH - 1, y: MIN_CENTER_Y + i },
        };
        list.push((d, p));
        i += 1;
        assert(list@ =~= old(list)@ + lanes(d, excluded).subrange(0, i as int));
    }
    assert(lanes(d, excluded).subrange(0, n as int) =~= lanes(d, excluded));
}

/// Lists the candidates for the next spawn.
pub fn spawn_candidates(last: Option<Direction>) -> (list: Vec<(Direction, Position)>)
    ensures
        list@ == candidates(last),
{
    let mut list: Vec<(Direction, Position)> = Vec::new();
    push_lanes(&mut list, Direction::Down, last);
    push_lanes(&mut list, Direction::Up, last);
    push_lanes(&mut list, Direction::Right, last);
    push_lanes(&mut list, Direction::Left, last);
    assert(list@ =~= candidates(last));
    list
}

} // verus!
