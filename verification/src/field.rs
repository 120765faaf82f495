//! The field: the grid together with the registry of live enemies, kept
//! consistent with each other.

use vstd::prelude::*;
use crate::geometry::{
    half_span, lane_half, Color, Direction, Position, MAX_CENTER_X, MAX_CENTER_Y, MIN_CENTER_X,
    MIN_CENTER_Y,
};
use crate::grid::{EnemyId, Grid, Tile};

verus! {

/// State of one live enemy.
#[derive(Debug, Clone, Copy, PartialEq, Eq, Structural)]
pub struct Enemy {
    pub position: Position,
    pub color: Color,
}

/// Notice that an enemy has been moved from one cell to another.
#[derive(Debug, Clone, Copy, PartialEq, Eq, Structural)]
pub struct EnemyMove {
    pub id: EnemyId,
    pub from: Position,
    pub to: Position,
}

/// What one shot along a line of sight did.
#[derive(Debug, Clone)]
pub struct ShotOutcome {
    /// Ids of the enemies eliminated, nearest first.
    pub removed: Vec<EnemyId>,
    /// Where the chain stopped: the cell of the enemy whose colour was
    /// swapped, else the cell of the last enemy eliminated, else the cell
    /// the shot started from.
    pub target: Position,
    /// The shooter's colour after the shot.
    pub color: Color,
    /// The enemy that the shooter swapped colours with, if any.
    pub swapped_with: Option<EnemyId>,
}

/// The grid and the enemies on it.
pub struct Field {
    grid: Grid,
    /// One slot for each enemy ever created, by id; `None` once eliminated.
    enemies: Vec<Option<Enemy>>,
    last_direction: Option<Direction>,
    eliminations: u64,
}

impl Field {
    /// What the cell at `p` holds.
    pub closed spec fn tile(&self, p: Position) -> Tile {
        self.grid.at(p)
    }

    /// The id that the next enemy will get: the number of enemies created
    /// so far.
    pub closed spec fn next_id(&self) -> nat {
        self.enemies.len() as nat
    }

    /// The enemy `id` is registered.
    pub closed spec fn is_live(&self, id: EnemyId) -> bool {
        id < self.enemies.len() && self.enemies@[id as int] is Some
    }

    /// State of the registered enemy `id`.
    pub closed spec fn enemy(&self, id: EnemyId) -> Enemy {
        self.enemies@[id as int]->0
    }

    /// Direction of the most recent spawn, if there was one.
    pub closed spec fn last_spawn(&self) -> Option<Direction> {
        self.last_direction
    }

    /// Number of enemies eliminated so far.
    pub closed spec fn total_eliminations(&self) -> nat {
        self.eliminations as nat
    }

    /// Grid and registry agree: every registered enemy stands in the cell
    /// that its record names, and every enemy tag on the grid belongs to a
    /// registered enemy whose record names that cell. So no id is on the grid
    /// twice. The eliminations counted are the enemies created and no
    /// longer registered.
    pub closed spec fn wf(&self) -> bool {
        &&& self.grid.wf()
        &&& self.eliminations as nat == vacant(self.enemies@)
        &&& forall|i: int|
            0 <= i < self.enemies@.len() && (#[trigger] self.enemies@[i]) is Some ==> {
                let e = self.enemies@[i]->0;
                e.position.in_bounds() && self.grid.at(e.position) == Tile::Enemy(i as usize)
            }
        &&& forall|p: Position|
            p.in_bounds() && (#[trigger] self.grid.at(p)) is Enemy ==> {
                let i = self.grid.at(p)->0 as int;
                i < self.enemies@.len() && self.enemies@[i] is Some && (self.enemies@[i]->0).position
                    == p
            }
    }

    /// On a consistent field every registered enemy stands on the grid in
    /// the cell that its record names, every enemy tag belongs to a
    /// registered enemy, and no enemy id is in two cells.
    pub proof fn lemma_enemies_on_grid(&self)
        requires
            self.wf(),
        ensures
            forall|id: EnemyId| #[trigger]
                self.is_live(id) ==> self.enemy(id).position.in_bounds() && self.tile(
                    self.enemy(id).position,
                ) == Tile::Enemy(id),
            forall|p: Position|
                p.in_bounds() && (#[trigger] self.tile(p)) is Enemy ==> self.is_live(
                    self.tile(p)->0,
                ) && self.enemy(self.tile(p)->0).position == p,
            forall|p: Position, q: Position|
                p.in_bounds() && q.in_bounds() && (#[trigger] self.tile(p)) is Enemy && self.tile(p)
                    == (#[trigger] self.tile(q)) ==> p == q,
            forall|id: EnemyId| (#[trigger] self.is_live(id)) ==> id < self.next_id(),
            self.total_eliminations() <= self.next_id() <= usize::MAX,
    {
        lemma_vacant_bound(self.enemies@);
        assert forall|id: EnemyId| #[trigger] self.is_live(id) implies self.enemy(
            id,
        ).position.in_bounds() && self.tile(self.enemy(id).position) == Tile::Enemy(id) by {
            assert(self.enemies@[id as int] is Some);
        }
    }

    /// Some cell of the core zone holds an enemy.
    pub open spec fn enemy_in_core(&self) -> bool {
        exists|p: Position| p.in_core() && (#[trigger] self.tile(p)) is Enemy
    }

    /// No cell from `lo` up to `hi` steps from `from` in direction `d` holds
    /// an enemy.
    pub open spec fn clear_along(&self, from: Position, d: Direction, lo: int, hi: int) -> bool {
        forall|j: int| lo <= j <= hi ==> !(#[trigger] self.tile(from.step(d, j)) is Enemy)
    }

    /// An empty field with no spawn behind it.
    pub fn new() -> (f: Field)
        ensures
            f.wf(),
            f.next_id() == 0,
            f.last_spawn() is None,
            f.total_eliminations() == 0,
            forall|p: Position| p.in_bounds() ==> (#[trigger] f.tile(p)) == Tile::Empty,
            forall|id: EnemyId| !(#[trigger] f.is_live(id)),
    {
        Field { grid: Grid::new(), enemies: Vec::new(), last_direction: None, eliminations: 0 }
    }

    pub fn tile_at(&self, p: Position) -> (t: Tile)
        requires
            self.wf(),
            p.in_bounds(),
        ensures
            t == self.tile(p),
    {
        self.grid.get(p)
    }

    /// The record of enemy `id`, if it is registered.
    pub fn get_enemy(&self, id: EnemyId) -> (r: Option<Enemy>)
        ensures
            r is Some <==> self.is_live(id),
            r is Some ==> r->0 == self.enemy(id),
    {
        if id < self.enemies.len() {
            self.enemies[id]
        } else {
            None
        }
    }

    pub fn next_enemy_id(&self) -> (r: EnemyId)
        ensures
            r == self.next_id(),
    {
        self.enemies.len()
    }

    pub fn last_direction(&self) -> (r: Option<Direction>)
        ensures
            r == self.last_spawn(),
    {
        self.last_direction
    }

    pub fn eliminations(&self) -> (r: u64)
        ensures
            r == self.total_eliminations(),
    {
        self.eliminations
    }

    /// Writes the player's tag, or none, into a cell that holds no enemy.
    pub fn mark(&mut self, p: Position, occupied: bool)
        requires
            old(self).wf(),
            p.in_bounds(),
            !(old(self).tile(p) is Enemy),
        ensures
            final(self).wf(),
            final(self).tile(p) == (if occupied {
                Tile::Player
            } else {
                Tile::Empty
            }),
            forall|q: Position| q.in_bounds() && q != p ==> (#[trigger] final(self).tile(q)) == old(self).tile(q),
            forall|id: EnemyId| (#[trigger] final(self).is_live(id)) == old(self).is_live(id),
            forall|id: EnemyId| old(self).is_live(id) ==> (#[trigger] final(self).enemy(id)) == old(self).enemy(id),
            final(self).next_id() == old(self).next_id(),
            final(self).last_spawn() == old(self).last_spawn(),
            final(self).total_eliminations() == old(self).total_eliminations(),
    {
        let t = if occupied {
            Tile::Player
        } else {
            Tile::Empty
        };
        self.grid.set(p, t);
    }

    /// Registers a new enemy under the next free id and puts it on a cell
    /// that holds no enemy.
    pub fn place_enemy(&mut self, p: Position, color: Color) -> (id: EnemyId)
        requires
            old(self).wf(),
            p.in_bounds(),
            !(old(self).tile(p) is Enemy),
        ensures
            final(self).wf(),
            id == old(self).next_id(),
            final(self).next_id() == id + 1,
            final(self).tile(p) == Tile::Enemy(id),
            forall|q: Position| q.in_bounds() && q != p ==> (#[trigger] final(self).tile(q)) == old(self).tile(q),
            final(self).is_live(id),
            final(self).enemy(id) == (Enemy { position: p, color }),
            forall|e: EnemyId| e != id ==> (#[trigger] final(self).is_live(e)) == old(self).is_live(e),
            forall|e: EnemyId|
                e != id && old(self).is_live(e) ==> (#[trigger] final(self).enemy(e)) == old(self).enemy(e),
            final(self).last_spawn() == old(self).last_spawn(),
            final(self).total_eliminations() == old(self).total_eliminations(),
    {
        let id: usize = self.enemies.len();
        proof {
            lemma_vacant_push(self.enemies@, Some(Enemy { position: p, color }));
        }
        self.enemies.push(Some(Enemy { position: p, color }));
        self.grid.set(p, Tile::Enemy(id));
        id
    }

    /// Takes the enemy `id` off the grid and out of the registry, and counts
    /// the elimination.
    pub fn remove_enemy(&mut self, id: EnemyId, position: Position)
        requires
            old(self).wf(),
            old(self).is_live(id),
            old(self).enemy(id).position == position,
        ensures
            final(self).wf(),
            !final(self).is_live(id),
            final(self).tile(position) == Tile::Empty,
            forall|q: Position|
                q.in_bounds() && q != position ==> (#[trigger] final(self).tile(q)) == old(self).tile(q),
            forall|e: EnemyId| e != id ==> (#[trigger] final(self).is_live(e)) == old(self).is_live(e),
            forall|e: EnemyId|
                e != id && old(self).is_live(e) ==> (#[trigger] final(self).enemy(e)) == old(self).enemy(e),
            final(self).next_id() == old(self).next_id(),
            final(self).last_spawn() == old(self).last_spawn(),
            final(self).total_eliminations() == old(self).total_eliminations() + 1,
    {
        proof {
            lemma_vacant_update(self.enemies@, id as int, None);
            lemma_vacant_bound(self.enemies@.update(id as int, None));
        }
        self.enemies.set(id, None);
        self.grid.set(position, Tile::Empty);
        self.eliminations += 1;
    }

    /// Gives the registered enemy `id` another colour.
    pub fn recolor(&mut self, id: EnemyId, color: Color)
        requires
            old(self).wf(),
            old(self).is_live(id),
        ensures
            final(self).wf(),
            final(self).is_live(id),
            final(self).enemy(id) == (Enemy { position: old(self).enemy(id).position, color }),
            forall|q: Position| q.in_bounds() ==> (#[trigger] final(self).tile(q)) == old(self).tile(q),
            forall|e: EnemyId| e != id ==> (#[trigger] final(self).is_live(e)) == old(self).is_live(e),
            forall|e: EnemyId|
                e != id && old(self).is_live(e) ==> (#[trigger] final(self).enemy(e)) == old(self).enemy(e),
            final(self).next_id() == old(self).next_id(),
            final(self).last_spawn() == old(self).last_spawn(),
            final(self).total_eliminations() == old(self).total_eliminations(),
    {
        let e: Enemy = self.enemies[id].unwrap();
        proof {
            lemma_vacant_update(self.enemies@, id as int, Some(Enemy { position: e.position, color }));
        }
        self.enemies.set(id, Some(Enemy { position: e.position, color }));
    }

    /// Remembers the direction of the spawn that has just been made.
    pub fn set_last_direction(&mut self, d: Option<Direction>)
        ensures
            final(self).last_spawn() == d,
            final(self).wf() == old(self).wf(),
            forall|q: Position| (#[trigger] final(self).tile(q)) == old(self).tile(q),
            forall|e: EnemyId| (#[trigger] final(self).is_live(e)) == old(self).is_live(e),
            forall|e: EnemyId| (#[trigger] final(self).enemy(e)) == old(self).enemy(e),
            final(self).next_id() == old(self).next_id(),
            final(self).total_eliminations() == old(self).total_eliminations(),
    {
        self.last_direction = d;
    }

    /// Moves the registered enemy `id` from its cell to `to`, which holds no
    /// enemy, and leaves its old cell empty.
    pub fn relocate(&mut self, id: EnemyId, to: Position)
        requires
            old(self).wf(),
            old(self).is_live(id),
            to.in_bounds(),
            !(old(self).tile(to) is Enemy),
        ensures
            final(self).wf(),
            final(self).is_live(id),
            final(self).enemy(id) == (Enemy { position: to, color: old(self).enemy(id).color }),
            final(self).tile(to) == Tile::Enemy(id),
            final(self).tile(old(self).enemy(id).position) == Tile::Empty,
            forall|q: Position|
                q.in_bounds() && q != to && q != old(self).enemy(id).position ==> (#[trigger] final(self).tile(
                    q,
                )) == old(self).tile(q),
            forall|e: EnemyId| e != id ==> (#[trigger] final(self).is_live(e)) == old(self).is_live(e),
            forall|e: EnemyId|
                e != id && old(self).is_live(e) ==> (#[trigger] final(self).enemy(e)) == old(self).enemy(e),
            final(self).next_id() == old(self).next_id(),
            final(self).last_spawn() == old(self).last_spawn(),
            final(self).total_eliminations() == old(self).total_eliminations(),
    {
        let e: Enemy = self.enemies[id].unwrap();
        proof {
            lemma_vacant_update(self.enemies@, id as int, Some(Enemy { position: to, color: e.color }));
        }
        self.enemies.set(id, Some(Enemy { position: to, color: e.color }));
        self.grid.set(to, Tile::Enemy(id));
        self.grid.set(e.position, Tile::Empty);
    }

    /// What the cell `p` holds once every enemy on the near half of the lane
    /// that starts at `edge` has moved one step in direction `d`: the enemy
    /// that stood one step behind it, if there was one; nothing, if its own
    /// enemy has left; else what it held before.
    pub open spec fn tile_after_advance(&self, d: Direction, edge: Position, p: Position) -> Tile {
        let k = edge.offset(d, p);
        if 1 <= k <= half_span(d) && self.tile(edge.step(d, k - 1)) is Enemy {
            self.tile(edge.step(d, k - 1))
        } else if 0 <= k < half_span(d) && self.tile(p) is Enemy {
            Tile::Empty
        } else {
            self.tile(p)
        }
    }

    /// Where an enemy that stood at `p` stands after the advance.
    pub open spec fn position_after_advance(d: Direction, edge: Position, p: Position) -> Position {
        if 0 <= edge.offset(d, p) < half_span(d) {
            p.step(d, 1)
        } else {
            p
        }
    }

    /// The moves that the advance makes on the cells from `k` steps off the
    /// edge up to the middle of the lane, the one nearest the middle first.
    pub open spec fn lane_moves(&self, d: Direction, edge: Position, k: int) -> Seq<EnemyMove>
        decreases half_span(d) - k,
    {
        if k >= half_span(d) {
            Seq::empty()
        } else {
            let rest = self.lane_moves(d, edge, k + 1);
            let p = edge.step(d, k);
            match self.tile(p) {
                Tile::Enemy(id) => rest.push(EnemyMove { id, from: p, to: edge.step(d, k + 1) }),
                _ => rest,
            }
        }
    }

    /// Moves every enemy on the near half of the lane one step towards the
    /// middle, starting with the one nearest the middle, and lists the
    /// moves in that order. The cell just past the half must hold no enemy.
    pub fn advance_lane(&mut self, d: Direction, edge: Position) -> (moves: Vec<EnemyMove>)
        requires
            old(self).wf(),
            edge.in_bounds(),
            half_span(d) <= edge.reach(d),
            !(old(self).tile(edge.step(d, half_span(d))) is Enemy),
        ensures
            final(self).wf(),
            forall|p: Position|
                p.in_bounds() ==> (#[trigger] final(self).tile(p)) == old(self).tile_after_advance(d, edge, p),
            forall|id: EnemyId| (#[trigger] final(self).is_live(id)) == old(self).is_live(id),
            forall|id: EnemyId|
                old(self).is_live(id) ==> (#[trigger] final(self).enemy(id)) == (Enemy {
                    position: Self::position_after_advance(d, edge, old(self).enemy(id).position),
                    color: old(self).enemy(id).color,
                }),
            moves@ == old(self).lane_moves(d, edge, 0),
            final(self).next_id() == old(self).next_id(),
            final(self).last_spawn() == old(self).last_spawn(),
            final(self).total_eliminations() == old(self).total_eliminations(),
    {
        let ghost pre = *self;
        let n: usize = lane_half(d);
        let mut moves: Vec<EnemyMove> = Vec::new();
        let mut j: usize = n;
        while j > 0
            invariant
                pre.wf(),
                edge.in_bounds(),
                n == half_span(d),
                n <= edge.reach(d),
                j <= n,
                self.wf(),
                self.next_id() == pre.next_id(),
                self.last_spawn() == pre.last_spawn(),
                self.total_eliminations() == pre.total_eliminations(),
                !(self.tile(edge.step(d, j as int)) is Enemy),
                forall|id: EnemyId| (#[trigger] self.is_live(id)) == pre.is_live(id),
                forall|id: EnemyId|
                    pre.is_live(id) ==> (#[trigger] self.enemy(id)) == (Enemy {
                        position: if j <= edge.offset(d, pre.enemy(id).position) < n {
                            pre.enemy(id).position.step(d, 1)
                        } else {
                            pre.enemy(id).position
                        },
                        color: pre.enemy(id).color,
                    }),
                forall|p: Position|
                    p.in_bounds() ==> (#[trigger] self.tile(p)) == (if edge.offset(d, p) > j {
                        pre.tile_after_advance(d, edge, p)
                    } else if edge.offset(d, p) == j && j < n && pre.tile(p) is Enemy {
                        Tile::Empty
                    } else {
                        pre.tile(p)
                    }),
                moves@ == pre.lane_moves(d, edge, j as int),
            decreases j,
        {
            let k: usize = j - 1;
            let from = edge.stepped(d, k);
            let to = edge.stepped(d, j);
            let ghost mid = *self;
            proof {
                pre.lemma_enemies_on_grid();
                mid.lemma_enemies_on_grid();
                lemma_lane_cells(edge, d, k as int);
                assert(mid.tile(from) == pre.tile(from));
            }
            match self.grid.get(from) {
                Tile::Enemy(id) => {
                    assert(pre.is_live(id) && pre.enemy(id).position == from);
                    assert(mid.is_live(id) && mid.enemy(id).position == from);
                    self.relocate(id, to);
                    moves.push(EnemyMove { id, from, to });
                },
                _ => {},
            }
            proof {
                assert forall|e: EnemyId| pre.is_live(e) implies (#[trigger] self.enemy(e)) == (Enemy {
                    position: if k <= edge.offset(d, pre.enemy(e).position) < n {
                        pre.enemy(e).position.step(d, 1)
                    } else {
                        pre.enemy(e).position
                    },
                    color: pre.enemy(e).color,
                }) by {
                    assert(mid.is_live(e));
                    assert(pre.tile(pre.enemy(e).position) == Tile::Enemy(e));
                }
                assert forall|p: Position| p.in_bounds() implies (#[trigger] self.tile(p)) == (
                if edge.offset(d, p) > k {
                    pre.tile_after_advance(d, edge, p)
                } else if edge.offset(d, p) == k && k < n && pre.tile(p) is Enemy {
                    Tile::Empty
                } else {
                    pre.tile(p)
                }) by {
                }
            }
            j = k;
        }
        moves
    }

    /// The nearest enemy more than `start` steps from `origin` in direction
    /// `d`, with its cell.
    pub fn find_from(&self, origin: Position, d: Direction, start: usize) -> (r: Option<
        (EnemyId, Position),
    >)
        requires
            self.wf(),
            origin.in_bounds(),
            start <= origin.reach(d),
        ensures
            match r {
                Some((id, p)) => {
                    let k = origin.offset(d, p);
                    &&& start < k <= origin.reach(d)
                    &&& p == origin.step(d, k)
                    &&& self.tile(p) == Tile::Enemy(id)
                    &&& self.clear_along(origin, d, start + 1, k - 1)
                },
                None => self.clear_along(origin, d, start + 1, origin.reach(d)),
            },
    {
        let reach: usize = origin.cells_ahead(d);
        let mut k: usize = start;
        while k < reach
            invariant
                self.wf(),
                origin.in_bounds(),
                reach == origin.reach(d),
                start <= k <= reach,
                self.clear_along(origin, d, start + 1, k as int),
            decreases reach - k,
        {
            k += 1;
            let p = origin.stepped(d, k);
            match self.grid.get(p) {
                Tile::Enemy(id) => {
                    return Some((id, p));
                },
                _ => {},
            }
        }
        None
    }

    /// The nearest enemy beyond `position` in direction `direction`, with its
    /// cell; `None` where the line of sight is clear up to the edge.
    pub fn find_enemy(&self, position: Position, direction: Direction) -> (r: Option<
        (EnemyId, Position),
    >)
        requires
            self.wf(),
            position.in_bounds(),
        ensures
            match r {
                Some((id, p)) => {
                    let k = position.offset(direction, p);
                    &&& 0 < k <= position.reach(direction)
                    &&& p == position.step(direction, k)
                    &&& self.tile(p) == Tile::Enemy(id)
                    &&& self.clear_along(position, direction, 1, k - 1)
                },
                None => self.clear_along(position, direction, 1, position.reach(direction)),
            },
    {
        self.find_from(position, direction, 0)
    }

    /// Ids of the enemies within `k` steps beyond `origin` in direction `d`,
    /// nearest first.
    pub open spec fn ids_along(&self, origin: Position, d: Direction, k: int) -> Seq<EnemyId>
        decreases k,
    {
        if k <= 0 {
            Seq::empty()
        } else {
            let rest = self.ids_along(origin, d, k - 1);
            match self.tile(origin.step(d, k)) {
                Tile::Enemy(id) => rest.push(id),
                _ => rest,
            }
        }
    }

    /// Every enemy within `k` steps beyond `origin` in direction `d` has the
    /// colour `color`.
    pub open spec fn all_match(&self, origin: Position, d: Direction, color: Color, k: int) -> bool {
        forall|j: int|
            1 <= j <= k && (#[trigger] self.tile(origin.step(d, j))) is Enemy ==> self.enemy(
                self.tile(origin.step(d, j))->0,
            ).color == color
    }

    /// A stretch without enemies adds no ids.
    pub proof fn lemma_ids_along_clear(&self, origin: Position, d: Direction, lo: int, hi: int)
        requires
            0 <= lo <= hi,
            self.clear_along(origin, d, lo + 1, hi),
        ensures
            self.ids_along(origin, d, hi) == self.ids_along(origin, d, lo),
        decreases hi - lo,
    {
        if lo < hi {
            assert(!(self.tile(origin.step(d, hi)) is Enemy));
            self.lemma_ids_along_clear(origin, d, lo, hi - 1);
        }
    }

    /// What a shot of colour `color` from `origin` in direction `d` makes of
    /// the field `pre`. With `t` the distance of the target and `e` the
    /// distance up to which enemies were eliminated: every enemy within `e`
    /// had the shooter's colour and is gone, in the order of `removed`;
    /// either the enemy at `t` had another colour and the two colours were
    /// swapped, or nothing stands beyond `t`; all else is as before.
    pub open spec fn shot_resolved(
        pre: Field,
        post: Field,
        origin: Position,
        d: Direction,
        color: Color,
        out: ShotOutcome,
    ) -> bool {
        let t = origin.offset(d, out.target);
        let e = if out.swapped_with is Some {
            t - 1
        } else {
            t
        };
        &&& 0 <= e <= t <= origin.reach(d)
        &&& out.target == origin.step(d, t)
        &&& out.removed@ == pre.ids_along(origin, d, e)
        &&& pre.all_match(origin, d, color, e)
        &&& match out.swapped_with {
            Some(id) => {
                &&& pre.tile(out.target) == Tile::Enemy(id)
                &&& pre.enemy(id).color != color
                &&& out.color == pre.enemy(id).color
            },
            None => {
                &&& out.color == color
                &&& pre.clear_along(origin, d, t + 1, origin.reach(d))
                &&& (t == 0 || pre.tile(out.target) is Enemy)
            },
        }
        &&& forall|p: Position|
            p.in_bounds() ==> (#[trigger] post.tile(p)) == (if 1 <= origin.offset(d, p)
                <= e && pre.tile(p) is Enemy {
                Tile::Empty
            } else {
                pre.tile(p)
            })
        &&& forall|id: EnemyId|
            (#[trigger] post.is_live(id)) == (pre.is_live(id) && !(1
                <= origin.offset(d, pre.enemy(id).position) <= e))
        &&& forall|id: EnemyId|
            post.is_live(id) ==> (#[trigger] post.enemy(id)) == (
            if out.swapped_with == Some(id) {
                Enemy { position: pre.enemy(id).position, color }
            } else {
                pre.enemy(id)
            })
    }

    /// Resolves a shot of colour `color` from `origin` in direction `d`:
    /// eliminates the enemies along the line one after the other as long as
    /// they have the shooter's colour; at the first enemy of another colour
    /// swaps colours with it and stops there.
    pub fn resolve_shot(&mut self, origin: Position, d: Direction, color: Color) -> (out:
        ShotOutcome)
        requires
            old(self).wf(),
            origin.in_bounds(),
        ensures
            final(self).wf(),
            Self::shot_resolved(*old(self), *final(self), origin, d, color, out),
            final(self).next_id() == old(self).next_id(),
            final(self).last_spawn() == old(self).last_spawn(),
            final(self).total_eliminations() == old(self).total_eliminations() + out.removed@.len(),
    {
        let ghost pre = *self;
        let reach: usize = origin.cells_ahead(d);
        let mut removed: Vec<EnemyId> = Vec::new();
        let mut s: usize = 0;
        let mut target = origin;
        let mut shooter = color;
        let mut swapped_with: Option<EnemyId> = None;
        let mut done = false;
        proof {
            lemma_ray_cells(origin, d, origin);
        }
        while !done
            invariant
                pre.wf(),
                self.wf(),
                origin.in_bounds(),
                reach == origin.reach(d),
                s <= reach,
                target == origin.step(d, s as int),
                origin.offset(d, target) == s,
                self.next_id() == pre.next_id(),
                self.last_spawn() == pre.last_spawn(),
                self.total_eliminations() == pre.total_eliminations() + removed@.len(),
                !done ==> swapped_with is None && shooter == color && (s == 0 || pre.tile(target) is Enemy),
                done ==> match swapped_with {
                    Some(id) => {
                        &&& s >= 1
                        &&& pre.tile(target) == Tile::Enemy(id)
                        &&& pre.enemy(id).color != color
                        &&& shooter == pre.enemy(id).color
                    },
                    None => {
                        &&& shooter == color
                        &&& pre.clear_along(origin, d, s + 1, reach as int)
                        &&& (s == 0 || pre.tile(target) is Enemy)
                    },
                },
                ({
                    let e = if swapped_with is Some {
                        s - 1
                    } else {
                        s as int
                    };
                    &&& removed@ == pre.ids_along(origin, d, e)
                    &&& pre.all_match(origin, d, color, e)
                    &&& forall|p: Position|
                        p.in_bounds() ==> (#[trigger] self.tile(p)) == (if 1 <= origin.offset(d, p)
                            <= e && pre.tile(p) is Enemy {
                            Tile::Empty
                        } else {
                            pre.tile(p)
                        })
                    &&& forall|id: EnemyId|
                        (#[trigger] self.is_live(id)) == (pre.is_live(id) && !(1 <= origin.offset(
                            d,
                            pre.enemy(id).position,
                        ) <= e))
                    &&& forall|id: EnemyId|
                        self.is_live(id) ==> (#[trigger] self.enemy(id)) == (if swapped_with == Some(
                            id,
                        ) {
                            Enemy { position: pre.enemy(id).position, color }
                        } else {
                            pre.enemy(id)
                        })
                }),
            decreases reach - s + (if done { 0int } else { 1int }),
        {
            let ghost mid = *self;
            proof {
                pre.lemma_enemies_on_grid();
                mid.lemma_enemies_on_grid();
            }
            match self.find_from(origin, d, s) {
                Some((id, p)) => {
                    let ghost k = origin.offset(d, p);
                    proof {
                        assert(mid.tile(p) == pre.tile(p));
                        assert(mid.is_live(id) && mid.enemy(id) == pre.enemy(id));
                        assert forall|j: int| s + 1 <= j <= k - 1 implies !(#[trigger] pre.tile(
                            origin.step(d, j),
                        ) is Enemy) by {
                            let q = origin.step(d, j);
                            lemma_ray_steps(origin, d, j);
                            assert(!(mid.tile(q) is Enemy));
                        }
                        pre.lemma_ids_along_clear(origin, d, s as int, k - 1);
                    }
                    let enemy: Enemy = self.enemies[id].unwrap();
                    if enemy.color == shooter {
                        self.remove_enemy(id, p);
                        removed.push(id);
                        proof {
                            assert forall|q: Position| q.in_bounds() implies (#[trigger] self.tile(q))
                                == (if 1 <= origin.offset(d, q) <= k && pre.tile(q) is Enemy {
                                Tile::Empty
                            } else {
                                pre.tile(q)
                            }) by {
                                lemma_ray_cells(origin, d, q);
                            }
                            assert forall|e: EnemyId|
                                (#[trigger] self.is_live(e)) == (pre.is_live(e) && !(1 <= origin.offset(
                                    d,
                                    pre.enemy(e).position,
                                ) <= k)) by {
                                if pre.is_live(e) {
                                    let q = pre.enemy(e).position;
                                    lemma_ray_cells(origin, d, q);
                                    assert(pre.tile(q) == Tile::Enemy(e));
                                }
                            }
                            assert forall|j: int|
                                1 <= j <= k && (#[trigger] pre.tile(
                                    origin.step(d, j),
                                )) is Enemy implies pre.enemy(pre.tile(origin.step(d, j))->0).color
                                == color by {
                                lemma_ray_steps(origin, d, j);
                            }
                        }
                    } else {
                        self.recolor(id, shooter);
                        shooter = enemy.color;
                        swapped_with = Some(id);
                        done = true;
                        proof {
                            assert forall|e: EnemyId|
                                (#[trigger] self.is_live(e)) == (pre.is_live(e) && !(1 <= origin.offset(
                                    d,
                                    pre.enemy(e).position,
                                ) <= k - 1)) by {
                                if pre.is_live(e) {
                                    let q = pre.enemy(e).position;
                                    lemma_ray_cells(origin, d, q);
                                    assert(pre.tile(q) == Tile::Enemy(e));
                                }
                            }
                            assert forall|q: Position| q.in_bounds() implies (#[trigger] self.tile(q))
                                == (if 1 <= origin.offset(d, q) <= k - 1 && pre.tile(q) is Enemy {
                                Tile::Empty
                            } else {
                                pre.tile(q)
                            }) by {
                                lemma_ray_cells(origin, d, q);
                            }
                            assert forall|j: int|
                                1 <= j <= k - 1 && (#[trigger] pre.tile(
                                    origin.step(d, j),
                                )) is Enemy implies pre.enemy(pre.tile(origin.step(d, j))->0).color
                                == color by {
                                lemma_ray_steps(origin, d, j);
                            }
                        }
                    }
                    proof {
                        lemma_ray_steps(origin, d, k);
                    }
                    target = p;
                    s = origin.cells_between(d, p);
                },
                None => {
                    proof {
                        assert forall|j: int| s + 1 <= j <= reach implies !(#[trigger] pre.tile(
                            origin.step(d, j),
                        ) is Enemy) by {
                            lemma_ray_steps(origin, d, j);
                            assert(!(mid.tile(origin.step(d, j)) is Enemy));
                        }
                    }
                    done = true;
                },
            }
        }
        ShotOutcome { removed, target, color: shooter, swapped_with }
    }

    /// No more enemies stand within `k` steps than there are steps.
    pub proof fn lemma_ids_along_len(&self, origin: Position, d: Direction, k: int)
        requires
            0 <= k,
        ensures
            self.ids_along(origin, d, k).len() <= k,
        decreases k,
    {
        if k > 0 {
            self.lemma_ids_along_len(origin, d, k - 1);
        }
    }

    /// Whether an enemy has reached the core zone.
    pub fn check_lose_condition(&self) -> (lost: bool)
        requires
            self.wf(),
        ensures
            lost == self.enemy_in_core(),
    {
        let mut x: usize = MIN_CENTER_X;
        while x <= MAX_CENTER_X
            invariant
                self.wf(),
                MIN_CENTER_X <= x <= MAX_CENTER_X + 1,
                forall|p: Position| p.in_core() && p.x < x ==> !((#[trigger] self.tile(p)) is Enemy),
            decreases MAX_CENTER_X + 1 - x,
        {
            let mut y: usize = MIN_CENTER_Y;
            while y <= MAX_CENTER_Y
                invariant
                    self.wf(),
                    MIN_CENTER_X <= x <= MAX_CENTER_X,
                    MIN_CENTER_Y <= y <= MAX_CENTER_Y + 1,
                    forall|p: Position|
                        p.in_core() && (p.x < x || (p.x == x && p.y < y)) ==> !((
                        #[trigger] self.tile(p)) is Enemy),
                decreases MAX_CENTER_Y + 1 - y,
            {
                let p = Position { x, y };
                match self.grid.get(p) {
                    Tile::Enemy(_) => {
                        assert(self.tile(p) is Enemy);
                        return true;
                    },
                    _ => {},
                }
                y += 1;
            }
            x += 1;
        }
        false
    }
}

/// Cells along a lane: the cell `k` steps from `edge` is on the field, has
/// offset `k` and is the only cell with that offset, and one more step from
/// it leads to the cell `k + 1` steps from `edge`.
pub proof fn lemma_lane_cells(edge: Position, d: Direction, k: int)
    requires
        edge.in_bounds(),
        0 <= k < edge.reach(d),
    ensures
        edge.step(d, k).in_bounds(),
        edge.step(d, k + 1).in_bounds(),
        edge.step(d, k) != edge.step(d, k + 1),
        edge.step(d, k).step(d, 1) == edge.step(d, k + 1),
        edge.offset(d, edge.step(d, k)) == k,
        edge.offset(d, edge.step(d, k + 1)) == k + 1,
        forall|p: Position|
            p.in_bounds() && #[trigger] edge.offset(d, p) == k ==> p == edge.step(d, k),
        forall|p: Position|
            p.in_bounds() && #[trigger] edge.offset(d, p) == k + 1 ==> p == edge.step(d, k + 1),
{
}

/// A cell of the field that lies `k >= 0` steps from `origin` in direction
/// `d` is the cell that `k` steps lead to, and `k` is within reach.
pub proof fn lemma_ray_cells(origin: Position, d: Direction, p: Position)
    requires
        origin.in_bounds(),
        p.in_bounds(),
    ensures
        origin.offset(d, p) <= origin.reach(d),
        origin.offset(d, p) >= 0 ==> p == origin.step(d, origin.offset(d, p)),
        origin.offset(d, p) == 0 <==> p == origin,
{
}

/// The cell `k` steps from `origin`, for `k` within reach, is on the field
/// and has offset `k`.
pub proof fn lemma_ray_steps(origin: Position, d: Direction, k: int)
    requires
        origin.in_bounds(),
        0 <= k <= origin.reach(d),
    ensures
        origin.step(d, k).in_bounds(),
        origin.offset(d, origin.step(d, k)) == k,
{
}

/// Number of empty slots of a registry: the enemies that were created and
/// have since been eliminated.
pub open spec fn vacant(slots: Seq<Option<Enemy>>) -> nat
    decreases slots.len(),
{
    if slots.len() == 0 {
        0
    } else {
        vacant(slots.drop_last()) + if slots.last() is None {
            1nat
        } else {
            0nat
        }
    }
}

/// No more slots are empty than there are slots.
pub proof fn lemma_vacant_bound(slots: Seq<Option<Enemy>>)
    ensures
        vacant(slots) <= slots.len(),
    decreases slots.len(),
{
    if slots.len() > 0 {
        lemma_vacant_bound(slots.drop_last());
    }
}

/// A new slot adds one to the empty slots if it is empty, else nothing.
pub proof fn lemma_vacant_push(slots: Seq<Option<Enemy>>, slot: Option<Enemy>)
    ensures
        vacant(slots.push(slot)) == vacant(slots) + if slot is None {
            1nat
        } else {
            0nat
        },
{
    assert(slots.push(slot).drop_last() =~= slots);
}

/// Writing a slot changes the number of empty slots by what the slot
/// gains or loses.
pub proof fn lemma_vacant_update(slots: Seq<Option<Enemy>>, i: int, slot: Option<Enemy>)
    requires
        0 <= i < slots.len(),
    ensures
        vacant(slots.update(i, slot)) + (if slots[i] is None {
            1nat
        } else {
            0nat
        }) == vacant(slots) + if slot is None {
            1nat
        } else {
            0nat
        },
    decreases slots.len(),
{
    if i == slots.len() - 1 {
        assert(slots.update(i, slot).drop_last() =~= slots.drop_last());
    } else {
        lemma_vacant_update(slots.drop_last(), i, slot);
        assert(slots.update(i, slot).drop_last() =~= slots.drop_last().update(i, slot));
    }
}

} // verus!
