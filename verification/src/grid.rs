//! The field as a fixed array of cells, each holding at most one occupant.

use vstd::prelude::*;
use crate::geometry::{Position, GRID_HEIGHT, GRID_WIDTH};

verus! {

/// Identity of an enemy: its number in order of creation, never used twice
/// within a round.
pub type EnemyId = usize;

/// What a cell holds.
#[derive(Debug, Clone, Copy, PartialEq, Eq, Structural)]
pub enum Tile {
    Empty,
    Player,
    Enemy(EnemyId),
}

/// The cells of the field, column by column.
pub struct Grid {
    cells: Vec<Tile>,
}

impl Grid {
    /// The grid has one cell for each position of the field.
    pub closed spec fn wf(&self) -> bool {
        self.cells.len() == GRID_WIDTH * GRID_HEIGHT
    }

    /// What the cell at `p` holds.
    pub closed spec fn at(&self, p: Position) -> Tile {
        self.cells@[p.x * GRID_HEIGHT + p.y]
    }

    /// A grid with every cell empty.
    pub fn new() -> (g: Grid)
        ensures
            g.wf(),
            forall|p: Position| p.in_bounds() ==> g.at(p) == Tile::Empty,
    {
        let mut cells: Vec<Tile> = Vec::new();
        let mut i: usize = 0;
        while i < GRID_WIDTH * GRID_HEIGHT
            invariant
                i <= GRID_WIDTH * GRID_HEIGHT,
                cells.len() == i,
                forall|j: int| 0 <= j < i ==> cells@[j] == Tile::Empty,
            decreases GRID_WIDTH * GRID_HEIGHT - i,
        {
            cells.push(Tile::Empty);
            i += 1;
        }
        Grid { cells }
    }

    /// Reads the cell at `p`.
    pub fn get(&self, p: Position) -> (t: Tile)
        requires
            self.wf(),
            p.in_bounds(),
        ensures
            t == self.at(p),
    {
        self.cells[p.x * GRID_HEIGHT + p.y]
    }

    /// Writes `t` into the cell at `p` and leaves the other cells alone.
    pub fn set(&mut self, p: Position, t: Tile)
        requires
            old(self).wf(),
            p.in_bounds(),
        ensures
            final(self).wf(),
            final(self).at(p) == t,
            forall|q: Position|
                q.in_bounds() && q != p ==> (#[trigger] final(self).at(q)) == old(self).at(q),
    {
        self.cells.set(p.x * GRID_HEIGHT + p.y, t);
    }
}

} // verus!
