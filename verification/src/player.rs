//! The player: a cell of the core zone, a facing, a colour, and the two
//! flags that hold back input while an animation runs.

use vstd::prelude::*;
use crate::geometry::{
    Color, Direction, Position, MAX_CENTER_X, MAX_CENTER_Y, MIN_CENTER_X, MIN_CENTER_Y,
};

verus! {

/// The cell one step from `p` in direction `d`, held inside the core zone.
pub open spec fn clamped_step(p: Position, d: Direction) -> Position {
    match d {
        Direction::Left => Position {
            x: if p.x > MIN_CENTER_X {
                (p.x - 1) as usize
            } else {
                p.x
            },
            y: p.y,
        },
        Direction::Right => Position {
            x: if p.x < MAX_CENTER_X {
                (p.x + 1) as usize
            } else {
                p.x
            },
            y: p.y,
        },
        Direction::Up => Position {
            x: p.x,
            y: if p.y > MIN_CENTER_Y {
                (p.y - 1) as usize
            } else {
                p.y
            },
        },
        Direction::Down => Position {
            x: p.x,
            y: if p.y < MAX_CENTER_Y {
                (p.y + 1) as usize
            } else {
                p.y
            },
        },
    }
}

/// The player: where it stands, where it faces, its colour, and whether
/// a move or a shot of it is being shown.
#[derive(Debug, Clone, Copy, PartialEq, Eq, Structural)]
pub struct Player {
    pub position: Position,
    pub direction: Direction,
    pub color: Color,
    pub is_moving: bool,
    pub is_shooting: bool,
}

impl Player {
    /// Input is held back while a move or a shot is in flight.
    pub open spec fn busy(self) -> bool {
        self.is_moving || self.is_shooting
    }

    /// A player at rest in the given cell, facing up.
    pub fn new(position: Position, color: Color) -> (p: Player)
        ensures
            p == (Player {
                position,
                direction: Direction::Up,
                color,
                is_moving: false,
                is_shooting: false,
            }),
    {
        Player { position, direction: Direction::Up, color, is_moving: false, is_shooting: false }
    }

    pub fn is_busy(&self) -> (r: bool)
        ensures
            r == self.busy(),
    {
        self.is_moving || self.is_shooting
    }

    pub fn set_direction(&mut self, direction: Direction)
        ensures
            *final(self) == (Player { direction, ..*old(self) }),
    {
        self.direction = direction;
    }

    pub fn set_color(&mut self, color: Color)
        ensures
            *final(self) == (Player { color, ..*old(self) }),
    {
        self.color = color;
    }

    /// Turns the player towards `d` and moves it one cell that way, as far
    /// as the core zone allows; the move is then in flight.
    pub fn move_to(&mut self, d: Direction)
        requires
            old(self).position.in_core(),
        ensures
            *final(self) == (Player {
                position: clamped_step(old(self).position, d),
                direction: d,
                is_moving: true,
                ..*old(self)
            }),
            final(self).position.in_core(),
    {
        let p = self.position;
        let next = match d {
            Direction::Left => Position {
                x: if p.x > MIN_CENTER_X {
                    p.x - 1
                } else {
                    p.x
                },
                y: p.y,
            },
            Direction::Right => Position {
                x: if p.x < MAX_CENTER_X {
                    p.x + 1
                } else {
                    p.x
                },
                y: p.y,
            },
            Direction::Up => Position {
                x: p.x,
                y: if p.y > MIN_CENTER_Y {
                    p.y - 1
                } else {
                    p.y
                },
            },
            Direction::Down => Position {
                x: p.x,
                y: if p.y < MAX_CENTER_Y {
                    p.y + 1
                } else {
                    p.y
                },
            },
        };
        self.direction = d;
        self.position = next;
        self.is_moving = true;
    }

    /// The move has been shown: input is let through again.
    pub fn end_movement(&mut self)
        ensures
            *final(self) == (Player { is_moving: false, ..*old(self) }),
    {
        self.is_moving = false;
    }

    /// The shot has reached its target: the player turns round for the way
    /// back.
    pub fn return_to_position(&mut self)
        ensures
            *final(self) == (Player {
                direction: old(self).direction.spec_opposite(),
                ..*old(self)
            }),
    {
        self.direction = self.direction.opposite();
    }

    /// The player is back: it turns round once more, and input is let
    /// through again.
    pub fn end_shoot(&mut self)
        ensures
            *final(self) == (Player {
                direction: old(self).direction.spec_opposite(),
                is_shooting: false,
                ..*old(self)
            }),
    {
        self.direction = self.direction.opposite();
        self.is_shooting = false;
    }
}

} // verus!
