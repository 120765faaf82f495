use goop_core::engine::Engine;
use goop_core::events::{move_event, shot_events, spawn_events, Event};
use goop_core::field::{Enemy, EnemyMove};
use goop_core::geometry::{Color, Direction, Position, GRID_HEIGHT, GRID_WIDTH};
use goop_core::grid::Tile;
use goop_core::player::Player;
use goop_core::random::{random_color, random_core_cell, select_spawn};
use goop_core::score::{difficulty_level, Score};
use goop_core::spawn::spawn_candidates;

fn at(x: usize, y: usize) -> Position {
    Position { x, y }
}

fn started(x: usize, y: usize, color: Color) -> Engine {
    let mut g = Engine::new();
    g.restart(at(x, y), color);
    g
}

/// Panics unless grid and registry agree and the round is in progress.
fn check_state(g: &Engine) {
    let mut players = 0;
    let mut enemies = 0;
    for x in 0..GRID_WIDTH {
        for y in 0..GRID_HEIGHT {
            match g.field.tile_at(at(x, y)) {
                Tile::Empty => {}
                Tile::Player => {
                    players += 1;
                    assert_eq!(g.player.position, at(x, y));
                }
                Tile::Enemy(id) => {
                    enemies += 1;
                    assert!(!at(x, y).is_in_core_zone());
                    assert_eq!(g.field.get_enemy(id).map(|e| e.position), Some(at(x, y)));
                }
            }
        }
    }
    assert_eq!(players, 1);
    let mut live = 0;
    for id in 0..g.field.next_enemy_id() {
        if let Some(e) = g.field.get_enemy(id) {
            live += 1;
            assert_eq!(g.field.tile_at(e.position), Tile::Enemy(id));
        }
    }
    assert_eq!(live, enemies);
    assert!(g.player.position.is_in_core_zone());
}

fn check_fresh(g: &Engine) {
    assert_eq!(g.score.points(), 0);
    assert_eq!(g.field.eliminations(), 0);
    assert_eq!(g.field.next_enemy_id(), 0);
    assert_eq!(g.field.last_direction(), None);
    assert_eq!(g.difficulty_level(), 0);
    for x in 0..GRID_WIDTH {
        for y in 0..GRID_HEIGHT {
            let want = if at(x, y) == g.player.position { Tile::Player } else { Tile::Empty };
            assert_eq!(g.field.tile_at(at(x, y)), want);
        }
    }
    assert_eq!(g.player.direction, Direction::Up);
    assert!(!g.is_moving());
    assert!(!g.is_shooting());
}

#[test]
fn new_game_is_fresh() {
    for _ in 0..50 {
        let g = Engine::new();
        check_state(&g);
        check_fresh(&g);
    }
}

#[test]
fn random_draws_stay_in_range() {
    let mut rng = rand::thread_rng();
    let mut seen = Vec::new();
    for _ in 0..400 {
        let p = random_core_cell(&mut rng);
        assert!(p.is_in_core_zone());
        if !seen.contains(&p) {
            seen.push(p);
        }
    }
    assert!(seen.len() > 1);
    let mut colors = Vec::new();
    for _ in 0..400 {
        let c = random_color(&mut rng);
        if !colors.contains(&c) {
            colors.push(c);
        }
    }
    assert_eq!(colors.len(), 4);
}

#[test]
fn selection_is_a_candidate_and_not_the_last_direction() {
    let mut rng = rand::thread_rng();
    for last in [
        None,
        Some(Direction::Left),
        Some(Direction::Right),
        Some(Direction::Up),
        Some(Direction::Down),
    ] {
        let list = spawn_candidates(last);
        let mut seen = Vec::new();
        for _ in 0..400 {
            let c = select_spawn(&mut rng, last);
            assert!(list.contains(&c));
            assert_ne!(Some(c.0), last);
            if !seen.contains(&c) {
                seen.push(c);
            }
        }
        assert!(seen.len() > 1);
    }
}

#[test]
fn spawn_on_same_lane_pushes_enemies_on() {
    let mut g = started(8, 6, Color::Red);
    let first = g.spawn_at(Direction::Right, at(0, 5), Color::Green);
    assert_eq!(first.id, 0);
    assert!(first.moves.is_empty());
    assert!(!first.lost);
    let a = g.field.place_enemy(at(3, 5), Color::Red);
    let b = g.field.place_enemy(at(5, 5), Color::Blue);
    let out = g.spawn_at(Direction::Right, at(0, 5), Color::Purple);
    assert!(!out.lost);
    assert_eq!(out.id, 3);
    assert_eq!(
        out.moves,
        vec![
            EnemyMove { id: b, from: at(5, 5), to: at(6, 5) },
            EnemyMove { id: a, from: at(3, 5), to: at(4, 5) },
            EnemyMove { id: 0, from: at(0, 5), to: at(1, 5) },
        ]
    );
    assert_eq!(g.field.tile_at(at(4, 5)), Tile::Enemy(a));
    assert_eq!(g.field.tile_at(at(6, 5)), Tile::Enemy(b));
    assert_eq!(g.field.tile_at(at(1, 5)), Tile::Enemy(0));
    assert_eq!(g.field.tile_at(at(0, 5)), Tile::Enemy(3));
    assert_eq!(g.field.tile_at(at(3, 5)), Tile::Empty);
    assert_eq!(g.field.tile_at(at(5, 5)), Tile::Empty);
    assert_eq!(g.field.get_enemy(3), Some(Enemy { position: at(0, 5), color: Color::Purple }));
    assert_eq!(g.field.last_direction(), Some(Direction::Right));
    check_state(&g);
}

#[test]
fn enemy_pushed_into_core_loses_the_round() {
    let mut g = started(9, 6, Color::Red);
    g.field.place_enemy(at(9, 2), Color::Red);
    g.field.place_enemy(at(9, 1), Color::Red);
    assert_eq!(g.on_shoot().map(|shot| shot.removed), Some(vec![0, 1]));
    assert_eq!(g.score.points(), 300);
    assert_eq!(g.field.eliminations(), 2);
    g.field.place_enemy(at(6, 5), Color::Red);
    let out = g.spawn_at(Direction::Right, at(0, 5), Color::Green);
    assert!(out.lost);
    assert_eq!(out.moves, vec![EnemyMove { id: 2, from: at(6, 5), to: at(7, 5) }]);
    assert!(g.field.check_lose_condition());
    g.restart(at(7, 4), Color::Blue);
    check_state(&g);
    check_fresh(&g);
    assert_eq!(g.player.position, at(7, 4));
    assert_eq!(g.player.color, Color::Blue);
}

#[test]
fn enemy_pushed_onto_player_loses_the_round() {
    let mut g = started(8, 4, Color::Red);
    for _ in 0..4 {
        let out = g.spawn_at(Direction::Down, at(8, 0), Color::Green);
        assert!(!out.lost);
        check_state(&g);
    }
    let out = g.spawn_at(Direction::Down, at(8, 0), Color::Green);
    assert!(out.lost);
    assert_eq!(g.field.tile_at(at(8, 4)), Tile::Enemy(0));
}

#[test]
fn ticks_never_repeat_a_direction_and_keep_the_state_sound() {
    let mut g = Engine::new();
    let mut last: Option<Direction> = None;
    let mut losses = 0;
    for _ in 0..2000 {
        let next_id = g.field.next_enemy_id();
        let out = g.on_spawn_tick();
        assert_ne!(Some(out.direction), last);
        assert_eq!(out.id, next_id);
        check_state(&g);
        if out.lost {
            losses += 1;
            check_fresh(&g);
            last = None;
        } else {
            assert_eq!(g.field.last_direction(), Some(out.direction));
            assert_eq!(g.field.get_enemy(out.id).map(|e| e.position), Some(out.position));
            last = Some(out.direction);
        }
    }
    assert!(losses > 0);
}

#[test]
fn shots_between_ticks_keep_the_state_sound() {
    let mut g = Engine::new();
    let directions = [Direction::Left, Direction::Up, Direction::Right, Direction::Down];
    for round in 0..600 {
        let out = g.on_spawn_tick();
        check_state(&g);
        if out.lost {
            continue;
        }
        assert!(g.on_move(directions[round % 4]));
        g.end_movement();
        check_state(&g);
        let before = g.field.eliminations();
        let score = g.score.points();
        let shot = g.on_shoot().unwrap();
        let n = shot.removed.len() as u64;
        assert_eq!(g.field.eliminations(), before + n);
        assert_eq!(g.score.points(), score + u128::from(50 * n * (n + 1)));
        assert_eq!(g.difficulty_level(), (before + n) / 20);
        assert_eq!(g.player.color, shot.color);
        for id in &shot.removed {
            assert_eq!(g.field.get_enemy(*id), None);
        }
        check_state(&g);
        g.return_to_position();
        g.end_shoot();
        assert_eq!(g.player.direction, directions[round % 4]);
    }
}

#[test]
fn engine_shot_counts_and_scores() {
    let mut g = started(8, 6, Color::Red);
    let a = g.field.place_enemy(at(8, 3), Color::Red);
    let b = g.field.place_enemy(at(8, 2), Color::Red);
    let c = g.field.place_enemy(at(8, 1), Color::Blue);
    let shot = g.on_shoot().unwrap();
    assert_eq!(shot.removed, vec![a, b]);
    assert_eq!(shot.swapped_with, Some(c));
    assert_eq!(shot.target, at(8, 1));
    assert_eq!(g.player.color, Color::Blue);
    assert!(g.is_shooting());
    assert_eq!(g.field.eliminations(), 2);
    assert_eq!(g.score.points(), 300);
    assert_eq!(g.field.get_enemy(c), Some(Enemy { position: at(8, 1), color: Color::Red }));
    assert!(g.on_shoot().is_none());
    assert!(!g.on_move(Direction::Left));
    assert_eq!(g.player.position, at(8, 6));
    g.return_to_position();
    assert_eq!(g.player.direction, Direction::Down);
    g.end_shoot();
    assert_eq!(g.player.direction, Direction::Up);
    assert!(!g.is_shooting());
    let shot = g.on_shoot().unwrap();
    assert!(shot.removed.is_empty());
    assert_eq!(shot.swapped_with, Some(c));
    assert_eq!(g.player.color, Color::Red);
    assert_eq!(g.score.points(), 300);
}

#[test]
fn moves_are_clamped_to_the_core() {
    let mut g = started(7, 4, Color::Red);
    assert!(g.on_move(Direction::Left));
    assert_eq!(g.player.position, at(7, 4));
    assert_eq!(g.player.direction, Direction::Left);
    assert!(g.is_moving());
    assert!(!g.on_move(Direction::Right));
    assert!(g.on_shoot().is_none());
    g.end_movement();
    assert!(g.on_move(Direction::Up));
    assert_eq!(g.player.position, at(7, 4));
    g.end_movement();
    assert!(g.on_move(Direction::Right));
    assert_eq!(g.player.position, at(8, 4));
    assert_eq!(g.field.tile_at(at(7, 4)), Tile::Empty);
    assert_eq!(g.field.tile_at(at(8, 4)), Tile::Player);
    g.end_movement();
    for _ in 0..5 {
        assert!(g.on_move(Direction::Down));
        g.end_movement();
    }
    assert_eq!(g.player.position, at(8, 7));
    for _ in 0..5 {
        assert!(g.on_move(Direction::Right));
        g.end_movement();
    }
    assert_eq!(g.player.position, at(10, 7));
    check_state(&g);
}

#[test]
fn player_setters() {
    let mut p = Player::new(at(9, 5), Color::Green);
    assert_eq!(p.direction, Direction::Up);
    assert!(!p.is_busy());
    p.set_direction(Direction::Down);
    p.set_color(Color::Purple);
    assert_eq!(p.direction, Direction::Down);
    assert_eq!(p.color, Color::Purple);
    p.move_to(Direction::Left);
    assert_eq!(p.position, at(8, 5));
    assert!(p.is_busy());
    p.end_movement();
    assert!(!p.is_busy());
}

#[test]
fn two_batches_score_nine_hundred() {
    let mut s = Score::new();
    s.add_points(2);
    assert_eq!(s.points(), 300);
    s.add_points(3);
    assert_eq!(s.points(), 900);
    s.add_points(0);
    assert_eq!(s.points(), 900);
    s.add_points(1);
    assert_eq!(s.points(), 1000);
}

#[test]
fn difficulty_steps_at_every_twentieth_elimination() {
    for total in 0..20u64 {
        assert_eq!(difficulty_level(total), 0);
        assert_eq!(0.9f64.powf(difficulty_level(total) as f64), 1.0);
    }
    assert_eq!(difficulty_level(20), 1);
    assert_eq!(0.9f64.powf(difficulty_level(20) as f64), 0.9);
    assert_eq!(difficulty_level(39), 1);
    assert_eq!(difficulty_level(40), 2);
    assert_eq!(0.9f64.powf(difficulty_level(40) as f64), 0.9f64.powf(2.0));
}

#[test]
fn spawn_is_told_as_moves_then_creation() {
    let mut g = started(8, 6, Color::Red);
    g.spawn_at(Direction::Left, at(17, 7), Color::Green);
    let out = g.spawn_at(Direction::Left, at(17, 7), Color::Blue);
    assert_eq!(
        spawn_events(&out),
        vec![
            Event::EnemyMoved { id: 0, from: at(17, 7), to: at(16, 7), millis: 100 },
            Event::EnemySpawned { id: 1, color: Color::Blue, position: at(17, 7) },
        ]
    );
}

#[test]
fn shot_is_told_as_removals_then_colour_then_target() {
    let mut g = started(8, 6, Color::Red);
    let a = g.field.place_enemy(at(3, 6), Color::Red);
    g.field.place_enemy(at(1, 6), Color::Purple);
    g.on_move(Direction::Left);
    g.end_movement();
    assert_eq!(move_event(g.player.position), Event::PlayerMoved { to: at(7, 6), millis: 100 });
    let shot = g.on_shoot().unwrap();
    assert_eq!(
        shot_events(&shot),
        vec![
            Event::EnemyRemoved { id: a },
            Event::PlayerColorChanged { color: Color::Purple },
            Event::PlayerShotTo { position: at(1, 6), millis: 150 },
        ]
    );
    g.return_to_position();
    g.end_shoot();
    let shot = g.on_shoot().unwrap();
    assert_eq!(
        shot_events(&shot),
        vec![
            Event::PlayerColorChanged { color: Color::Red },
            Event::PlayerShotTo { position: at(1, 6), millis: 150 },
        ]
    );
    g.return_to_position();
    g.end_shoot();
    g.on_move(Direction::Up);
    g.end_movement();
    let shot = g.on_shoot().unwrap();
    assert_eq!(
        shot_events(&shot),
        vec![Event::PlayerShotTo { position: at(7, 5), millis: 150 }]
    );
}
