//! Positions, directions and colours, and the fixed shape of the field.

use vstd::prelude::*;

verus! {

/// Number of columns of the field.
pub const GRID_WIDTH: usize = 18;

/// Number of rows of the field.
pub const GRID_HEIGHT: usize = 12;

/// Side of the square core zone in the middle of the field.
pub const CENTER_SIZE: usize = 4;

/// First column of the core zone.
pub const MIN_CENTER_X: usize = GRID_WIDTH / 2 - CENTER_SIZE / 2;

/// Last column of the core zone.
pub const MAX_CENTER_X: usize = GRID_WIDTH / 2 + CENTER_SIZE / 2 - 1;

/// First row of the core zone.
pub const MIN_CENTER_Y: usize = GRID_HEIGHT / 2 - CENTER_SIZE / 2;

/// Last row of the core zone.
pub const MAX_CENTER_Y: usize = GRID_HEIGHT / 2 + CENTER_SIZE / 2 - 1;

/// Side of one cell in presentation units.
pub const CELL_SIZE: usize = 16;

/// One of the four axis directions. `Up` is towards row 0.
#[derive(Debug, Clone, Copy, PartialEq, Eq, Structural)]
pub enum Direction {
    Left,
    Right,
    Up,
    Down,
}

impl Direction {
    /// The direction that points the other way.
    pub open spec fn spec_opposite(self) -> Direction {
        match self {
            Direction::Left => Direction::Right,
            Direction::Right => Direction::Left,
            Direction::Up => Direction::Down,
            Direction::Down => Direction::Up,
        }
    }

    /// True for the two directions that run along a row.
    pub open spec fn is_horizontal(self) -> bool {
        self == Direction::Left || self == Direction::Right
    }

    pub fn opposite(&self) -> (r: Direction)
        ensures
            r == self.spec_opposite(),
    {
        match self {
            Direction::Left => Direction::Right,
            Direction::Right => Direction::Left,
            Direction::Up => Direction::Down,
            Direction::Down => Direction::Up,
        }
    }
}

/// Turning round twice gives the direction one started with, and turning
/// round once never does.
pub proof fn lemma_opposite_involution(d: Direction)
    ensures
        d.spec_opposite().spec_opposite() == d,
        d.spec_opposite() != d,
        d.spec_opposite().is_horizontal() == d.is_horizontal(),
{
}

/// One of the four colours. Only equality matters.
#[derive(Debug, Clone, Copy, PartialEq, Eq, Structural)]
pub enum Color {
    Red,
    Green,
    Blue,
    Purple,
}

impl Color {
    /// The colour with the given number, counting from `Red` at 0.
    pub open spec fn spec_from_index(i: int) -> Color {
        if i == 0 {
            Color::Red
        } else if i == 1 {
            Color::Green
        } else if i == 2 {
            Color::Blue
        } else {
            Color::Purple
        }
    }

    pub fn from_index(i: usize) -> (r: Color)
        requires
            i < 4,
        ensures
            r == Color::spec_from_index(i as int),
    {
        if i == 0 {
            Color::Red
        } else if i == 1 {
            Color::Green
        } else if i == 2 {
            Color::Blue
        } else {
            Color::Purple
        }
    }
}

/// A cell of the field, by column and row.
#[derive(Debug, Clone, Copy, PartialEq, Eq, Structural)]
pub struct Position {
    pub x: usize,
    pub y: usize,
}

impl Position {
    /// The cell lies on the field.
    pub open spec fn in_bounds(self) -> bool {
        self.x < GRID_WIDTH && self.y < GRID_HEIGHT
    }

    /// The cell lies in the core zone.
    pub open spec fn in_core(self) -> bool {
        MIN_CENTER_X <= self.x <= MAX_CENTER_X && MIN_CENTER_Y <= self.y <= MAX_CENTER_Y
    }

    /// How many cells of the field lie beyond this one in direction `d`.
    pub open spec fn reach(self, d: Direction) -> int {
        match d {
            Direction::Left => self.x as int,
            Direction::Right => GRID_WIDTH - 1 - self.x,
            Direction::Up => self.y as int,
            Direction::Down => GRID_HEIGHT - 1 - self.y,
        }
    }

    /// The cell `k` steps from this one in direction `d`.
    pub open spec fn step(self, d: Direction, k: int) -> Position {
        match d {
            Direction::Left => Position { x: (self.x - k) as usize, y: self.y },
            Direction::Right => Position { x: (self.x + k) as usize, y: self.y },
            Direction::Up => Position { x: self.x, y: (self.y - k) as usize },
            Direction::Down => Position { x: self.x, y: (self.y + k) as usize },
        }
    }

    /// How many steps in direction `d` lead from this cell to `p`, or -1
    /// where `p` lies behind this cell or off its line.
    pub open spec fn offset(self, d: Direction, p: Position) -> int {
        match d {
            Direction::Left => if p.y == self.y && p.x <= self.x {
                self.x - p.x
            } else {
                -1
            },
            Direction::Right => if p.y == self.y && p.x >= self.x {
                p.x - self.x
            } else {
                -1
            },
            Direction::Up => if p.x == self.x && p.y <= self.y {
                self.y - p.y
            } else {
                -1
            },
            Direction::Down => if p.x == self.x && p.y >= self.y {
                p.y - self.y
            } else {
                -1
            },
        }
    }

    pub fn is_in_core_zone(&self) -> (r: bool)
        ensures
            r == self.in_core(),
    {
        MIN_CENTER_X <= self.x && self.x <= MAX_CENTER_X && MIN_CENTER_Y <= self.y && self.y
            <= MAX_CENTER_Y
    }

    /// Number of cells between this one and the edge of the field in
    /// direction `d`.
    pub fn cells_ahead(&self, d: Direction) -> (r: usize)
        requires
            self.in_bounds(),
        ensures
            r == self.reach(d),
    {
        match d {
            Direction::Left => self.x,
            Direction::Right => GRID_WIDTH - 1 - self.x,
            Direction::Up => self.y,
            Direction::Down => GRID_HEIGHT - 1 - self.y,
        }
    }

    /// Number of steps in direction `d` from this cell to `p`, which lies
    /// ahead of it on its line.
    pub fn cells_between(&self, d: Direction, p: Position) -> (r: usize)
        requires
            self.offset(d, p) >= 0,
        ensures
            r == self.offset(d, p),
    {
        match d {
            Direction::Left => self.x - p.x,
            Direction::Right => p.x - self.x,
            Direction::Up => self.y - p.y,
            Direction::Down => p.y - self.y,
        }
    }

    /// The cell `k` steps away in direction `d`, which must lie on the field.
    pub fn stepped(&self, d: Direction, k: usize) -> (r: Position)
        requires
            self.in_bounds(),
            k <= self.reach(d),
        ensures
            r == self.step(d, k as int),
            r.in_bounds(),
    {
        match d {
            Direction::Left => Position { x: self.x - k, y: self.y },
            Direction::Right => Position { x: self.x + k, y: self.y },
            Direction::Up => Position { x: self.x, y: self.y - k },
            Direction::Down => Position { x: self.x, y: self.y + k },
        }
    }

    /// Centre of the cell in presentation units: the index times the cell
    /// size, plus half a cell.
    pub fn screen_coords(&self) -> (r: (usize, usize))
        requires
            self.in_bounds(),
        ensures
            r.0 == self.x * CELL_SIZE + CELL_SIZE / 2,
            r.1 == self.y * CELL_SIZE + CELL_SIZE / 2,
    {
        (self.x * CELL_SIZE + CELL_SIZE / 2, self.y * CELL_SIZE + CELL_SIZE / 2)
    }
}

/// Number of cells of a lane that lie on the side of the field where enemies
/// moving in direction `d` come from: half the field's width or height.
pub open spec fn half_span(d: Direction) -> int {
    if d.is_horizontal() {
        GRID_WIDTH as int / 2
    } else {
        GRID_HEIGHT as int / 2
    }
}

/// `p` is a cell where an enemy moving in direction `d` may enter the field:
/// on the edge it comes from, in a lane that crosses the core zone.
pub open spec fn is_spawn_cell(d: Direction, p: Position) -> bool {
    match d {
        Direction::Down => p.y == 0 && MIN_CENTER_X <= p.x <= MAX_CENTER_X,
        Direction::Up => p.y == GRID_HEIGHT - 1 && MIN_CENTER_X <= p.x <= MAX_CENTER_X,
        Direction::Right => p.x == 0 && MIN_CENTER_Y <= p.y <= MAX_CENTER_Y,
        Direction::Left => p.x == GRID_WIDTH - 1 && MIN_CENTER_Y <= p.y <= MAX_CENTER_Y,
    }
}

/// Exec counterpart of [`half_span`].
pub fn lane_half(d: Direction) -> (n: usize)
    ensures
        n == half_span(d),
{
    match d {
        Direction::Left | Direction::Right => GRID_WIDTH / 2,
        Direction::Up | Direction::Down => GRID_HEIGHT / 2,
    }
}

} // verus!
