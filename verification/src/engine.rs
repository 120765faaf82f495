//! The game as a whole: field, player and score, and the two actions that
//! change them, the spawn tick and the shot.

use vstd::prelude::*;
use rand::rngs::ThreadRng;
use crate::field::{Enemy, EnemyMove, Field, ShotOutcome};
use crate::geometry::{half_span, is_spawn_cell, Color, Direction, Position};
use crate::grid::{EnemyId, Tile};
use crate::player::{clamped_step, Player};
use crate::random::{new_rng, random_color, random_core_cell, select_spawn};
use crate::score::{batch_points, lemma_batch_within_cap, level_of, points_cap, Score};

verus! {

/// What one spawn did.
#[derive(Debug, Clone)]
pub struct SpawnOutcome {
    /// Direction in which the new enemy and its lane move.
    pub direction: Direction,
    /// Edge cell where the new enemy was put.
    pub position: Position,
    pub color: Color,
    /// Id of the new enemy.
    pub id: EnemyId,
    /// The enemies that were pushed one cell on, nearest the middle first.
    pub moves: Vec<EnemyMove>,
    /// An enemy stood in the core zone after the spawn.
    pub lost: bool,
}

/// What the cell `p` of `field` holds after a spawn at `edge` in direction
/// `d`: the new enemy on the edge cell, else what the advance leaves.
pub open spec fn tile_after_spawn(field: Field, d: Direction, edge: Position, p: Position) -> Tile {
    if p == edge {
        Tile::Enemy(field.next_id() as usize)
    } else {
        field.tile_after_advance(d, edge, p)
    }
}

/// A spawn at `edge` in direction `d` brings an enemy into the core zone.
pub open spec fn spawn_loses(field: Field, d: Direction, edge: Position) -> bool {
    exists|p: Position| p.in_core() && (#[trigger] tile_after_spawn(field, d, edge, p)) is Enemy
}

/// The field `post` is what a spawn of colour `color` at `edge` in direction
/// `d` makes of `pre`.
pub open spec fn spawn_applied(
    pre: Field,
    post: Field,
    d: Direction,
    edge: Position,
    color: Color,
) -> bool {
    &&& post.next_id() == pre.next_id() + 1
    &&& post.last_spawn() == Some(d)
    &&& post.total_eliminations() == pre.total_eliminations()
    &&& forall|p: Position|
        p.in_bounds() ==> (#[trigger] post.tile(p)) == tile_after_spawn(pre, d, edge, p)
    &&& forall|e: EnemyId|
        (#[trigger] post.is_live(e)) == (pre.is_live(e) || e == pre.next_id())
    &&& post.enemy(pre.next_id() as usize) == (Enemy { position: edge, color })
    &&& forall|e: EnemyId|
        pre.is_live(e) ==> (#[trigger] post.enemy(e)) == (Enemy {
            position: Field::position_after_advance(d, edge, pre.enemy(e).position),
            color: pre.enemy(e).color,
        })
}

/// The whole state of a game, with the generator that its random draws
/// come from.
pub struct Engine {
    pub field: Field,
    pub player: Player,
    pub score: Score,
    pub rng: ThreadRng,
}

impl Engine {
    /// The state of a round in progress: grid and registry agree, the
    /// player stands in the core zone on the one cell tagged as its own, no
    /// enemy is in the core zone, at most one busy flag is set, and the
    /// score is no more than the eliminations can have brought.
    pub open spec fn wf(&self) -> bool {
        &&& self.field.wf()
        &&& self.player.position.in_core()
        &&& self.field.tile(self.player.position) == Tile::Player
        &&& forall|p: Position|
            p.in_bounds() && (#[trigger] self.field.tile(p)) == Tile::Player ==> p
                == self.player.position
        &&& !self.field.enemy_in_core()
        &&& !(self.player.is_moving && self.player.is_shooting)
        &&& self.score.value() <= points_cap() * self.field.total_eliminations()
    }

    /// In a round in progress every cell has one occupant at most and none
    /// is there twice: no two cells hold the same enemy, every registered
    /// enemy stands on the cell that its record names, and the player's tag
    /// is on the player's cell and nowhere else.
    pub proof fn lemma_one_occupant_each(&self)
        requires
            self.wf(),
        ensures
            forall|p: Position, q: Position|
                p.in_bounds() && q.in_bounds() && (#[trigger] self.field.tile(p)) is Enemy
                    && self.field.tile(p) == (#[trigger] self.field.tile(q)) ==> p == q,
            forall|id: EnemyId| #[trigger]
                self.field.is_live(id) ==> self.field.tile(self.field.enemy(id).position)
                    == Tile::Enemy(id),
            forall|p: Position|
                p.in_bounds() ==> ((#[trigger] self.field.tile(p)) == Tile::Player <==> p
                    == self.player.position),
    {
        self.field.lemma_enemies_on_grid();
    }

    /// The state at the start of a round: no score, no eliminations, no
    /// enemy ever created, no spawn behind, nothing on the grid but the
    /// player, who is at rest and faces up.
    pub open spec fn is_fresh(&self) -> bool {
        &&& self.score.value() == 0
        &&& self.field.total_eliminations() == 0
        &&& self.field.next_id() == 0
        &&& self.field.last_spawn() is None
        &&& forall|id: EnemyId| !(#[trigger] self.field.is_live(id))
        &&& forall|p: Position|
            p.in_bounds() && p != self.player.position ==> (#[trigger] self.field.tile(p))
                == Tile::Empty
        &&& self.player.direction == Direction::Up
        &&& !self.player.is_moving
        &&& !self.player.is_shooting
    }

    /// Starts a game: the player at a random cell of the core zone, with a
    /// random colour.
    pub fn new() -> (g: Engine)
        ensures
            g.wf(),
            g.is_fresh(),
    {
        let mut rng = new_rng();
        let color = random_color(&mut rng);
        let position = random_core_cell(&mut rng);
        let mut field = Field::new();
        field.mark(position, true);
        let g = Engine { field, player: Player::new(position, color), score: Score::new(), rng };
        proof {
            g.lemma_no_enemy_in_core();
        }
        g
    }

    /// A field without registered enemies has none in the core zone.
    proof fn lemma_no_enemy_in_core(&self)
        requires
            self.field.wf(),
            forall|id: EnemyId| !(#[trigger] self.field.is_live(id)),
        ensures
            !self.field.enemy_in_core(),
    {
        self.field.lemma_enemies_on_grid();
    }

    /// Starts the round anew with the player at `position`.
    pub fn restart(&mut self, position: Position, color: Color)
        requires
            position.in_core(),
        ensures
            final(self).wf(),
            final(self).is_fresh(),
            final(self).player.position == position,
            final(self).player.color == color,
    {
        let mut field = Field::new();
        field.mark(position, true);
        self.field = field;
        self.player = Player::new(position, color);
        self.score = Score::new();
        proof {
            self.lemma_no_enemy_in_core();
        }
    }

    /// Spawns an enemy of colour `color` at `edge`, after every enemy on
    /// the near half of that lane has moved one cell on, and says whether an
    /// enemy now stands in the core zone. The round is not restarted here.
    pub fn spawn_at(&mut self, d: Direction, edge: Position, color: Color) -> (out: SpawnOutcome)
        requires
            old(self).wf(),
            is_spawn_cell(d, edge),
        ensures
            final(self).field.wf(),
            spawn_applied(old(self).field, final(self).field, d, edge, color),
            out.direction == d,
            out.position == edge,
            out.color == color,
            out.id == old(self).field.next_id(),
            out.moves@ == old(self).field.lane_moves(d, edge, 0),
            out.lost == spawn_loses(old(self).field, d, edge),
            out.lost == final(self).field.enemy_in_core(),
            !out.lost ==> final(self).wf(),
            final(self).player == old(self).player,
            final(self).score.value() == old(self).score.value(),
    {
        let ghost pre = self.field;
        proof {
            assert(edge.step(d, half_span(d)).in_core());
            assert(!(pre.tile(edge.step(d, half_span(d))) is Enemy));
        }
        let moves = self.field.advance_lane(d, edge);
        let id = self.field.place_enemy(edge, color);
        self.field.set_last_direction(Some(d));
        let lost = self.field.check_lose_condition();
        proof {
            pre.lemma_enemies_on_grid();
            assert forall|p: Position| p.in_bounds() implies (#[trigger] self.field.tile(p))
                == tile_after_spawn(pre, d, edge, p) by {}
            if lost {
                let p = choose|p: Position| p.in_core() && (#[trigger] self.field.tile(p)) is Enemy;
                assert(tile_after_spawn(pre, d, edge, p) is Enemy);
            } else {
                assert forall|p: Position| p.in_core() implies !(#[trigger] tile_after_spawn(
                    pre,
                    d,
                    edge,
                    p,
                ) is Enemy) by {
                    assert(!(self.field.tile(p) is Enemy));
                }
                assert(!(self.field.tile(self.player.position) is Enemy));
            }
        }
        SpawnOutcome { direction: d, position: edge, color, id, moves, lost }
    }

    /// One spawn tick: draws an edge cell in a direction other than that of
    /// the last spawn, and a colour, and spawns there. If an enemy then
    /// stands in the core zone the round is lost and starts anew.
    pub fn on_spawn_tick(&mut self) -> (out: SpawnOutcome)
        requires
            old(self).wf(),
        ensures
            final(self).wf(),
            Some(out.direction) != old(self).field.last_spawn(),
            is_spawn_cell(out.direction, out.position),
            out.id == old(self).field.next_id(),
            out.moves@ == old(self).field.lane_moves(out.direction, out.position, 0),
            out.lost == spawn_loses(old(self).field, out.direction, out.position),
            out.lost ==> final(self).is_fresh(),
            !out.lost ==> {
                &&& spawn_applied(
                    old(self).field,
                    final(self).field,
                    out.direction,
                    out.position,
                    out.color,
                )
                &&& final(self).player == old(self).player
                &&& final(self).score.value() == old(self).score.value()
            },
    {
        let last = self.field.last_direction();
        let (d, edge) = select_spawn(&mut self.rng, last);
        let color = random_color(&mut self.rng);
        let out = self.spawn_at(d, edge, color);
        if out.lost {
            let start_color = random_color(&mut self.rng);
            let start = random_core_cell(&mut self.rng);
            self.restart(start, start_color);
        }
        out
    }

    /// A move command. It is dropped while the player is busy; else the
    /// player turns and steps within the core zone, and its tag on the grid
    /// goes with it.
    pub fn on_move(&mut self, d: Direction) -> (accepted: bool)
        requires
            old(self).wf(),
        ensures
            final(self).wf(),
            accepted == !old(self).player.busy(),
            !accepted ==> final(self).player == old(self).player && final(self).field == old(
                self,
            ).field,
            accepted ==> final(self).player == (Player {
                position: clamped_step(old(self).player.position, d),
                direction: d,
                is_moving: true,
                ..old(self).player
            }),
            forall|p: Position|
                p.in_bounds() && p != old(self).player.position && p != final(self).player.position
                    ==> (#[trigger] final(self).field.tile(p)) == old(self).field.tile(p),
            forall|e: EnemyId| (#[trigger] final(self).field.is_live(e)) == old(self).field.is_live(e),
            forall|e: EnemyId|
                old(self).field.is_live(e) ==> (#[trigger] final(self).field.enemy(e)) == old(
                    self,
                ).field.enemy(e),
            final(self).field.next_id() == old(self).field.next_id(),
            final(self).field.last_spawn() == old(self).field.last_spawn(),
            final(self).field.total_eliminations() == old(self).field.total_eliminations(),
            final(self).score.value() == old(self).score.value(),
    {
        if self.player.is_busy() {
            return false;
        }
        let from = self.player.position;
        self.player.move_to(d);
        let to = self.player.position;
        self.field.mark(from, false);
        self.field.mark(to, true);
        true
    }

    /// A shoot command. It is dropped while the player is busy; else the
    /// shot is resolved along the player's line of sight, the eliminations
    /// are counted, the score grows by the points of the batch, and the shot
    /// is in flight. The counters cannot overflow: no more enemies are
    /// eliminated than were created.
    pub fn on_shoot(&mut self) -> (out: Option<ShotOutcome>)
        requires
            old(self).wf(),
        ensures
            final(self).wf(),
            out is None <==> old(self).player.busy(),
            out is None ==> final(self).player == old(self).player && final(self).field == old(
                self,
            ).field && final(self).score.value() == old(self).score.value(),
            out is Some ==> {
                let shot = out->0;
                let n = shot.removed@.len();
                &&& Field::shot_resolved(
                    old(self).field,
                    final(self).field,
                    old(self).player.position,
                    old(self).player.direction,
                    old(self).player.color,
                    shot,
                )
                &&& final(self).player == (Player {
                    color: shot.color,
                    is_shooting: true,
                    ..old(self).player
                })
                &&& final(self).field.total_eliminations() == old(self).field.total_eliminations()
                    + n
                &&& final(self).score.value() == old(self).score.value() + batch_points(n)
                &&& final(self).field.next_id() == old(self).field.next_id()
                &&& final(self).field.last_spawn() == old(self).field.last_spawn()
            },
    {
        if self.player.is_busy() {
            return None;
        }
        let ghost pre = self.field;
        let origin = self.player.position;
        let d = self.player.direction;
        let shot = self.field.resolve_shot(origin, d, self.player.color);
        let n: usize = shot.removed.len();
        proof {
            let t = origin.offset(d, shot.target);
            let e = if shot.swapped_with is Some {
                t - 1
            } else {
                t
            };
            pre.lemma_ids_along_len(origin, d, e);
            lemma_batch_within_cap(n as nat);
            self.field.lemma_enemies_on_grid();
            let v = self.score.value() as int;
            let p = batch_points(n as nat) as int;
            let b = pre.total_eliminations() as int;
            let m = n as int;
            assert(points_cap() == 900);
            assert(v <= 900 * b);
            assert(p <= 900 * m);
            assert(m == 0 ==> p == 0);
            assert(v + p <= 900 * (b + m) <= 16602069666338596453500int) by (nonlinear_arith)
                requires
                    v <= 900 * b,
                    p <= 900 * m,
                    0 <= b + m <= 0xffff_ffff_ffff_ffff,
            ;
        }
        let goops: u64 = n as u64;
        if goops > 0 {
            self.score.add_points(goops);
        }
        self.player.set_color(shot.color);
        self.player.is_shooting = true;
        proof {
            assert(self.field.tile(origin) == pre.tile(origin));
            assert(self.score.value() <= 900 * (pre.total_eliminations() + n));
        }
        Some(shot)
    }

    /// The difficulty level: one for every twenty eliminations of the
    /// round. The spawn interval is its base value times nine tenths to this
    /// power.
    pub fn difficulty_level(&self) -> (level: u64)
        ensures
            level == level_of(self.field.total_eliminations()),
    {
        crate::score::difficulty_level(self.field.eliminations())
    }

    pub fn is_moving(&self) -> (r: bool)
        ensures
            r == self.player.is_moving,
    {
        self.player.is_moving
    }

    pub fn is_shooting(&self) -> (r: bool)
        ensures
            r == self.player.is_shooting,
    {
        self.player.is_shooting
    }

    /// The player's move has been shown.
    pub fn end_movement(&mut self)
        requires
            old(self).wf(),
        ensures
            final(self).wf(),
            final(self).player == (Player { is_moving: false, ..old(self).player }),
            final(self).field == old(self).field,
            final(self).score == old(self).score,
    {
        self.player.end_movement();
    }

    /// The player's shot has reached its target.
    pub fn return_to_position(&mut self)
        requires
            old(self).wf(),
        ensures
            final(self).wf(),
            final(self).player == (Player {
                direction: old(self).player.direction.spec_opposite(),
                ..old(self).player
            }),
            final(self).field == old(self).field,
            final(self).score == old(self).score,
    {
        self.player.return_to_position();
    }

    /// The player is back from its shot.
    pub fn end_shoot(&mut self)
        requires
            old(self).wf(),
        ensures
            final(self).wf(),
            final(self).player == (Player {
                direction: old(self).player.direction.spec_opposite(),
                is_shooting: false,
                ..old(self).player
            }),
            final(self).field == old(self).field,
            final(self).score == old(self).score,
    {
        self.player.end_shoot();
    }
}

} // verus!
