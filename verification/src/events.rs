//! What the presentation is told: the outcome of an action as a list of
//! notices, in the order in which they are to be shown.

use vstd::prelude::*;
use crate::engine::SpawnOutcome;
use crate::field::{EnemyMove, ShotOutcome};
use crate::geometry::{Color, Position};
use crate::grid::EnemyId;

verus! {

/// Time that a move of one cell is given on screen, in milliseconds.
pub const MOVE_MILLIS: u32 = 100;

/// Time that a shot is given to reach its target, in milliseconds.
pub const SHOT_MILLIS: u32 = 150;

/// A notice to the presentation.
#[derive(Debug, Clone, Copy, PartialEq, Eq, Structural)]
pub enum Event {
    EnemySpawned { id: EnemyId, color: Color, position: Position },
    EnemyMoved { id: EnemyId, from: Position, to: Position, millis: u32 },
    EnemyRemoved { id: EnemyId },
    PlayerMoved { to: Position, millis: u32 },
    PlayerColorChanged { color: Color },
    PlayerShotTo { position: Position, millis: u32 },
}

/// The notice of one enemy's move.
pub open spec fn moved(m: EnemyMove) -> Event {
    Event::EnemyMoved { id: m.id, from: m.from, to: m.to, millis: MOVE_MILLIS }
}

/// The notices of a spawn: one for each enemy pushed on, in the order of
/// the moves, then one for the new enemy.
pub open spec fn spawn_notices(
    moves: Seq<EnemyMove>,
    id: EnemyId,
    color: Color,
    position: Position,
) -> Seq<Event> {
    Seq::new(moves.len(), |i: int| moved(moves[i])).push(
        Event::EnemySpawned { id, color, position },
    )
}

/// The notices of a shot: one for each enemy eliminated, nearest first;
/// then the player's new colour, if colours were swapped; then the shot
/// itself.
pub open spec fn shot_notices(
    removed: Seq<EnemyId>,
    swapped: bool,
    color: Color,
    target: Position,
) -> Seq<Event> {
    let gone = Seq::new(removed.len(), |i: int| Event::EnemyRemoved { id: removed[i] });
    let recolored = if swapped {
        gone.push(Event::PlayerColorChanged { color })
    } else {
        gone
    };
    recolored.push(Event::PlayerShotTo { position: target, millis: SHOT_MILLIS })
}

/// Lists the notices of a spawn.
pub fn spawn_events(out: &SpawnOutcome) -> (events: Vec<Event>)
    ensures
        events@ == spawn_notices(out.moves@, out.id, out.color, out.position),
{
    let mut events: Vec<Event> = Vec::new();
    let mut i: usize = 0;
    while i < out.moves.len()
        invariant
            i <= out.moves.len(),
            events@ == Seq::new(i as nat, |j: int| moved(out.moves@[j])),
        decreases out.moves.len() - i,
    {
        let m = out.moves[i];
        events.push(Event::EnemyMoved { id: m.id, from: m.from, to: m.to, millis: MOVE_MILLIS });
        i += 1;
        assert(events@ =~= Seq::new(i as nat, |j: int| moved(out.moves@[j])));
    }
    events.push(Event::EnemySpawned { id: out.id, color: out.color, position: out.position });
    events
}

/// Lists the notices of a shot.
pub fn shot_events(out: &ShotOutcome) -> (events: Vec<Event>)
    ensures
        events@ == shot_notices(out.removed@, out.swapped_with is Some, out.color, out.target),
{
    let mut events: Vec<Event> = Vec::new();
    let mut i: usize = 0;
    while i < out.removed.len()
        invariant
            i <= out.removed.len(),
            events@ == Seq::new(i as nat, |j: int| Event::EnemyRemoved { id: out.removed@[j] }),
        decreases out.removed.len() - i,
    {
        events.push(Event::EnemyRemoved { id: out.removed[i] });
        i += 1;
        assert(events@ =~= Seq::new(
            i as nat,
            |j: int| Event::EnemyRemoved { id: out.removed@[j] },
        ));
    }
    if out.swapped_with.is_some() {
        events.push(Event::PlayerColorChanged { color: out.color });
    }
    events.push(Event::PlayerShotTo { position: out.target, millis: SHOT_MILLIS });
    events
}

/// The notice of a move of the player to `to`.
pub fn move_event(to: Position) -> (e: Event)
    ensures
        e == (Event::PlayerMoved { to, millis: MOVE_MILLIS }),
{
    Event::PlayerMoved { to, millis: MOVE_MILLIS }
}

} // verus!
