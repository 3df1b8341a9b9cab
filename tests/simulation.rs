use asteroids::collision::{ColliderEntity, CollisionEvent, CollisionHandler, CollisionSystem};
use asteroids::components::{
    Collider, ColliderType, EntityRecord, Explosion, Physical, Ship, SpriteRender, SpriteSheet, Transform,
    Bullet, Asteroid,
};
use asteroids::control::{ShipControlSystem, ShipInput};
use asteroids::effects::{DeletionSystem, ExplosionSystem, ScoreRes};
use asteroids::fixed::{clamp_velocity, Vector2};
use asteroids::motion::{wrap_coordinate, BoundarySystem, PhysicalSystem};
use asteroids::random::RandomGen;
use asteroids::spawn::SpawnAsteroidSystem;
use asteroids::states::{handle_event, GameState, Key, StateMenu, StateOver, StatePause, StatePlay, Trans};
use asteroids::world::World;

fn idle() -> ShipInput {
    ShipInput { accelerate: 0, rotate: 0, shoot: false, heading: Vector2 { x: 0, y: 1000 } }
}

fn ship_at(id: u64, x: i64, y: i64) -> EntityRecord {
    EntityRecord {
        id,
        transform: Transform { x, y, rotation: 0 },
        physical: Some(Physical { velocity: Vector2 { x: 0, y: 0 }, max_velocity: 100_000, rotation: 0 }),
        ship: Some(Ship::new()),
        bullet: None,
        asteroid: None,
        explosion: None,
        collider: Some(Collider { typ: ColliderType::Ship }),
        sprite: Some(SpriteRender { sprite_sheet: SpriteSheet::Ship, sprite_number: 0 }),
    }
}

fn bullet_at(id: u64, x: i64, y: i64, vx: i64, vy: i64) -> EntityRecord {
    EntityRecord {
        id,
        transform: Transform { x, y, rotation: 0 },
        physical: Some(Physical { velocity: Vector2 { x: vx, y: vy }, max_velocity: 200_000, rotation: 0 }),
        ship: None,
        bullet: Some(Bullet),
        asteroid: None,
        explosion: None,
        collider: Some(Collider { typ: ColliderType::Bullet }),
        sprite: Some(SpriteRender { sprite_sheet: SpriteSheet::Bullet, sprite_number: 0 }),
    }
}

fn asteroid_at(id: u64, x: i64, y: i64) -> EntityRecord {
    EntityRecord {
        id,
        transform: Transform { x, y, rotation: 0 },
        physical: Some(Physical { velocity: Vector2 { x: 0, y: 0 }, max_velocity: 100_000, rotation: 0 }),
        ship: None,
        bullet: None,
        asteroid: Some(Asteroid),
        explosion: None,
        collider: Some(Collider { typ: ColliderType::Asteroid }),
        sprite: Some(SpriteRender { sprite_sheet: SpriteSheet::Asteroids, sprite_number: 0 }),
    }
}

fn world_of(entities: Vec<EntityRecord>, next_id: u64) -> World {
    let mut w = World::new();
    w.entities = entities;
    w.next_id = next_id;
    w
}

#[test]
fn end_to_end_thrust_and_move() {
    let mut w = world_of(vec![ship_at(0, 150_000, 150_000)], 1);
    let input = ShipInput { accelerate: 1000, rotate: 0, shoot: false, heading: Vector2 { x: 0, y: 1000 } };
    ShipControlSystem.run(&mut w, input, 100);
    let p = w.entities[0].physical.unwrap();
    assert_eq!(p.velocity, Vector2 { x: 0, y: 8000 });
    PhysicalSystem.run(&mut w, 100);
    assert_eq!(w.entities[0].transform.x, 150_000);
    assert_eq!(w.entities[0].transform.y, 150_800);
}

#[test]
fn end_to_end_through_update() {
    let mut game = StatePlay::new(7);
    let input = ShipInput { accelerate: 1000, rotate: 0, shoot: false, heading: Vector2 { x: 0, y: 1000 } };
    let t = game.update(input, 100);
    assert_eq!(t, Trans::Stay);
    let ship = game.world.entities[0];
    assert_eq!(ship.physical.unwrap().velocity, Vector2 { x: 0, y: 8000 });
    assert_eq!((ship.transform.x, ship.transform.y), (150_000, 150_800));
    assert_eq!(game.score.score, 0);
}

#[test]
fn velocity_clamped_after_long_thrust() {
    let mut w = world_of(vec![ship_at(0, 150_000, 150_000)], 1);
    let input = ShipInput { accelerate: 1000, rotate: 0, shoot: false, heading: Vector2 { x: 600, y: 800 } };
    for _ in 0..50 {
        ShipControlSystem.run(&mut w, input, 100);
        let p = w.entities[0].physical.unwrap();
        let sq = (p.velocity.x as i128).pow(2) + (p.velocity.y as i128).pow(2);
        assert!(sq <= (p.max_velocity as i128).pow(2));
    }
    assert_eq!(w.entities[0].physical.unwrap().velocity, Vector2 { x: 60_000, y: 80_000 });
}

#[test]
fn clamp_rescales_exactly() {
    assert_eq!(clamp_velocity(Vector2 { x: 300_000, y: -400_000 }, 100_000), Vector2 { x: 60_000, y: -80_000 });
    assert_eq!(clamp_velocity(Vector2 { x: 3, y: 4 }, 5), Vector2 { x: 3, y: 4 });
    assert_eq!(clamp_velocity(Vector2 { x: 0, y: 0 }, 0), Vector2 { x: 0, y: 0 });
    assert_eq!(clamp_velocity(Vector2 { x: 1, y: 1 }, 1), Vector2 { x: 0, y: 0 });
}

#[test]
fn rotation_is_overwritten_not_accumulated() {
    let mut w = world_of(vec![ship_at(0, 150_000, 150_000)], 1);
    let turn = ShipInput { accelerate: 0, rotate: 1000, shoot: false, heading: Vector2 { x: 0, y: 1000 } };
    ShipControlSystem.run(&mut w, turn, 100);
    assert_eq!(w.entities[0].physical.unwrap().rotation, 18_000_000);
    ShipControlSystem.run(&mut w, idle(), 100);
    assert_eq!(w.entities[0].physical.unwrap().rotation, 0);
}

#[test]
fn reload_gates_second_shot() {
    let mut w = world_of(vec![ship_at(0, 150_000, 150_000)], 1);
    let fire = ShipInput { accelerate: 0, rotate: 0, shoot: true, heading: Vector2 { x: 0, y: 1000 } };
    ShipControlSystem.run(&mut w, fire, 100);
    assert_eq!(w.pending.len(), 1);
    assert_eq!(w.entities[0].ship.unwrap().reload_timer, 500);
    for _ in 0..4 {
        ShipControlSystem.run(&mut w, fire, 100);
    }
    assert_eq!(w.pending.len(), 1);
    ShipControlSystem.run(&mut w, fire, 100);
    assert_eq!(w.pending.len(), 1);
    assert_eq!(w.entities[0].ship.unwrap().reload_timer, 0);
    ShipControlSystem.run(&mut w, fire, 100);
    assert_eq!(w.pending.len(), 2);
}

#[test]
fn bullet_gets_muzzle_velocity() {
    let mut w = world_of(vec![ship_at(0, 150_000, 150_000)], 1);
    let fire = ShipInput { accelerate: 0, rotate: 0, shoot: true, heading: Vector2 { x: 0, y: 1000 } };
    ShipControlSystem.run(&mut w, fire, 100);
    let b = w.pending[0];
    assert_eq!(b.physical.unwrap().velocity, Vector2 { x: 0, y: 150_000 });
    assert_eq!(b.physical.unwrap().max_velocity, 200_000);
    assert_eq!(b.collider, Some(Collider { typ: ColliderType::Bullet }));
    assert_eq!((b.transform.x, b.transform.y), (150_000, 150_000));
    w.maintain();
    assert_eq!(w.entities.len(), 2);
    assert_eq!(w.entities[1].id, 1);
    assert_eq!(w.next_id, 2);
}

#[test]
fn spawn_clearance_over_many_trials() {
    let sp = SpawnAsteroidSystem::new();
    let mut rng = RandomGen::new(2024);
    let ships = [(150_000i64, 150_000i64), (0, 0), (300_000, 120_000)];
    for trial in 0..1000 {
        let (sx, sy) = ships[trial % 3];
        let ship = Transform { x: sx, y: sy, rotation: 0 };
        let a = sp.spawn_near(ship, &mut rng).unwrap();
        let dx = (a.transform.x - sx) as i128;
        let dy = (a.transform.y - sy) as i128;
        assert!(dx * dx + dy * dy > 200_000i128 * 200_000);
        let v = a.physical.unwrap().velocity;
        assert!(v.x.abs() <= 60_000 && v.y.abs() <= 60_000);
        assert!(a.sprite.unwrap().sprite_number < 3);
    }
}

#[test]
fn clearance_test_is_strict() {
    let sp = SpawnAsteroidSystem::new();
    let ship = Transform { x: 0, y: 0, rotation: 0 };
    assert!(!sp.clears_ship(ship, 200_000, 0));
    assert!(sp.clears_ship(ship, 200_001, 0));
    assert!(!sp.clears_ship(ship, 120_000, 160_000));
}

#[test]
fn asteroid_from_draws() {
    let sp = SpawnAsteroidSystem::new();
    let a = sp.asteroid_at(10_000, 20_000, 0, 120_000, 5_000_000, 2);
    let p = a.physical.unwrap();
    assert_eq!(p.velocity, Vector2 { x: -60_000, y: 60_000 });
    assert_eq!(p.rotation, 0);
    assert_eq!(p.max_velocity, 100_000);
    assert_eq!(a.sprite.unwrap().sprite_number, 2);
}

#[test]
fn spawner_waits_then_spawns() {
    let mut sp = SpawnAsteroidSystem::new();
    let mut rng = RandomGen::new(1);
    let mut w = world_of(vec![ship_at(0, 150_000, 150_000)], 1);
    sp.run(&mut w, &mut rng, 1500);
    assert_eq!(sp.time_to_spawn, 500);
    assert_eq!(w.pending.len(), 0);
    sp.run(&mut w, &mut rng, 500);
    assert_eq!(w.pending.len(), 1);
    assert!(sp.time_to_spawn >= 500 && sp.time_to_spawn < 1500);
}

#[test]
fn spawner_idle_without_ship() {
    let mut sp = SpawnAsteroidSystem::new();
    let mut rng = RandomGen::new(1);
    let mut w = world_of(vec![], 0);
    sp.run(&mut w, &mut rng, 5000);
    assert_eq!(sp.time_to_spawn, 2000);
    assert_eq!(w.pending.len(), 0);
}

#[test]
fn random_draws_stay_below_bound() {
    let mut rng = RandomGen::new(99);
    let mut seen = [false; 5];
    for _ in 0..500 {
        let r = rng.next_below(5);
        assert!(r < 5);
        seen[r as usize] = true;
    }
    assert!(seen.iter().all(|s| *s));
}

fn collider(typ: ColliderType, entity: u64, x: i64, y: i64) -> ColliderEntity {
    ColliderEntity { typ, entity, x, y }
}

#[test]
fn bullet_and_asteroid_destroy_each_other() {
    let cs = vec![
        collider(ColliderType::Bullet, 1, 100_000, 100_000),
        collider(ColliderType::Asteroid, 2, 106_000, 108_000),
        collider(ColliderType::Ship, 3, 1_100_000, 100_000),
    ];
    let h = CollisionSystem.run(&cs);
    assert_eq!(h.collide_entity, vec![CollisionEvent::new(1), CollisionEvent::new(2)]);
    assert!(!h.ship_hit);
}

#[test]
fn ship_and_asteroid_raise_ship_hit() {
    let cs = vec![collider(ColliderType::Ship, 1, 50_000, 50_000), collider(ColliderType::Asteroid, 2, 50_000, 59_000)];
    let h = CollisionSystem.run(&cs);
    assert!(h.collide_entity.is_empty());
    assert!(h.ship_hit);
}

#[test]
fn distant_and_same_tag_pairs_ignored() {
    let cs = vec![
        collider(ColliderType::Bullet, 1, 0, 0),
        collider(ColliderType::Asteroid, 2, 10_001, 0),
        collider(ColliderType::Asteroid, 3, 10_000, 100),
        collider(ColliderType::Ship, 4, 0, 0),
    ];
    let h = CollisionSystem.run(&cs);
    assert!(h.collide_entity.is_empty());
    assert!(!h.ship_hit);
    let mut handler = CollisionHandler::new();
    assert!(!handler.is_interference_allowed(&cs[1], &cs[2]));
    assert!(handler.is_interference_allowed(&cs[0], &cs[3]));
    handler.interference_started(&cs[0], &cs[3]);
    assert!(handler.collide_entity.is_empty() && !handler.ship_hit);
}

#[test]
fn bullet_between_two_asteroids_hits_both() {
    let cs = vec![
        collider(ColliderType::Asteroid, 1, 0, 0),
        collider(ColliderType::Bullet, 2, 5_000, 0),
        collider(ColliderType::Asteroid, 3, 10_000, 0),
    ];
    let h = CollisionSystem.run(&cs);
    let ids: Vec<u64> = h.collide_entity.iter().map(|e| e.entity).collect();
    assert_eq!(ids, vec![1, 2, 2, 3]);
}

#[test]
fn deletion_scores_bullets_and_spawns_explosions() {
    let mut w = world_of(vec![bullet_at(1, 10_000, 20_000, 0, 0), asteroid_at(2, 12_000, 20_000)], 3);
    let mut score = ScoreRes::new();
    let events = vec![CollisionEvent::new(1), CollisionEvent::new(2), CollisionEvent::new(1), CollisionEvent::new(9)];
    DeletionSystem.run(&mut w, &events, &mut score);
    assert_eq!(score.score, 2);
    assert_eq!(score.text(), "2");
    assert_eq!(w.pending.len(), 2);
    assert_eq!(w.pending[0].explosion, Some(Explosion::new()));
    assert_eq!((w.pending[0].transform.x, w.pending[0].transform.y), (10_000, 20_000));
    assert_eq!(w.doomed, vec![1, 2, 1, 9]);
    w.maintain();
    assert_eq!(w.entities.len(), 2);
    assert!(w.entities.iter().all(|e| e.explosion.is_some()));
    assert_eq!((w.entities[0].id, w.entities[1].id), (3, 4));
}

#[test]
fn score_never_decreases_over_ticks() {
    let mut game = StatePlay::new(3);
    game.world.entities.push(bullet_at(1, 150_000, 200_000, 0, 0));
    game.world.entities.push(asteroid_at(2, 150_000, 203_000));
    game.world.next_id = 3;
    let mut last = game.score.score;
    for _ in 0..40 {
        game.update(idle(), 100);
        assert!(game.score.score >= last);
        last = game.score.score;
    }
    assert_eq!(game.score.score, 1);
}

#[test]
fn explosion_lives_five_countdowns() {
    let mut w = world_of(vec![], 0);
    let mut e = EntityRecord {
        id: 0,
        transform: Transform { x: 0, y: 0, rotation: 0 },
        physical: None,
        ship: None,
        bullet: None,
        asteroid: None,
        explosion: Some(Explosion::new()),
        collider: None,
        sprite: Some(SpriteRender { sprite_sheet: SpriteSheet::Explosion, sprite_number: 0 }),
    };
    e.id = 0;
    w.entities.push(e);
    w.next_id = 1;
    let mut ticks = 0;
    let mut advances = 0;
    while !w.entities.is_empty() {
        let before = w.entities[0].explosion.unwrap().frame_count;
        ExplosionSystem.run(&mut w, 100);
        ticks += 1;
        if w.doomed.is_empty() && w.entities[0].explosion.unwrap().frame_count != before {
            advances += 1;
            assert_eq!(w.entities[0].sprite.unwrap().sprite_number as i32, w.entities[0].explosion.unwrap().frame_count);
        }
        w.maintain();
        assert!(ticks < 100);
    }
    assert_eq!(advances, 4);
    assert_eq!(ticks, 10);
    assert!(ticks * 100 >= 400);
}

#[test]
fn explosion_step_values() {
    let e = Explosion::new();
    assert_eq!(ExplosionSystem::step(e, 30), Some(Explosion { time_to_update: 70, frame_count: 0 }));
    let due = Explosion { time_to_update: -5, frame_count: 2 };
    assert_eq!(ExplosionSystem::step(due, 30), Some(Explosion { time_to_update: 100, frame_count: 3 }));
    let last = Explosion { time_to_update: 0, frame_count: 4 };
    assert_eq!(ExplosionSystem::step(last, 30), None);
}

#[test]
fn wrap_moves_to_opposite_edge() {
    assert_eq!(wrap_coordinate(-1, 300_000), 299_500);
    assert_eq!(wrap_coordinate(300_001, 300_000), 500);
    assert_eq!(wrap_coordinate(150_000, 300_000), 150_000);
    assert_eq!(wrap_coordinate(0, 300_000), 0);
    assert_eq!(wrap_coordinate(300_000, 300_000), 300_000);
    let once = wrap_coordinate(-7, 300_000);
    assert_eq!(wrap_coordinate(once, 300_000), once);
}

#[test]
fn boundary_wraps_ship_and_culls_bullets() {
    let mut w = world_of(
        vec![ship_at(0, -10, 300_010), bullet_at(1, 301_000, 10, 0, 0), bullet_at(2, 100, 100, 0, 0)],
        3,
    );
    BoundarySystem.run(&mut w);
    assert_eq!((w.entities[0].transform.x, w.entities[0].transform.y), (299_500, 500));
    assert_eq!(w.doomed, vec![1]);
    let snapshot: Vec<(i64, i64)> = w.entities.iter().map(|e| (e.transform.x, e.transform.y)).collect();
    w.maintain();
    assert_eq!(w.entities.len(), 2);
    BoundarySystem.run(&mut w);
    assert_eq!((w.entities[0].transform.x, w.entities[0].transform.y), snapshot[0]);
    assert!(w.doomed.is_empty());
}

#[test]
fn lookup_by_id() {
    let w = world_of(vec![ship_at(4, 0, 0), asteroid_at(7, 1, 1)], 8);
    assert_eq!(w.get(7).unwrap().transform.x, 1);
    assert!(w.get(5).is_none());
}

#[test]
fn ship_hit_switches_to_game_over() {
    let mut game = StatePlay::new(11);
    game.world.entities.push(asteroid_at(1, 150_000, 155_000));
    game.world.next_id = 2;
    assert_eq!(game.update(idle(), 16), Trans::Switch(GameState::Over));
}

#[test]
fn screen_transitions() {
    assert_eq!(handle_event(GameState::Menu, Key::Space), Trans::Push(GameState::Play));
    assert_eq!(handle_event(GameState::Play, Key::Escape), Trans::Push(GameState::Pause));
    assert_eq!(handle_event(GameState::Pause, Key::Escape), Trans::Pop);
    assert_eq!(handle_event(GameState::Over, Key::Space), Trans::Pop);
    assert_eq!(handle_event(GameState::Play, Key::Space), Trans::Stay);
    assert_eq!(handle_event(GameState::Menu, Key::Other), Trans::Stay);
}

#[test]
fn physics_integrates_spin_and_wraps_angle() {
    let mut w = world_of(vec![asteroid_at(0, 100_000, 100_000)], 1);
    w.entities[0].physical = Some(Physical { velocity: Vector2 { x: -1000, y: 0 }, max_velocity: 100_000, rotation: 5_000_000 });
    w.entities[0].transform.rotation = 6_000_000;
    PhysicalSystem.run(&mut w, 100);
    assert_eq!(w.entities[0].transform.x, 99_900);
    assert_eq!(w.entities[0].transform.rotation, 6_500_000 - 6_283_185);
}

#[test]
fn screens_react_to_their_keys() {
    assert_eq!(StateMenu.handle_event(Key::Space), Trans::Push(GameState::Play));
    assert_eq!(StatePause.handle_event(Key::Escape), Trans::Pop);
    assert_eq!(StatePause.handle_event(Key::Space), Trans::Stay);
    let over = StateOver::new(12);
    assert_eq!(over.score, 12);
    assert_eq!(over.handle_event(Key::Space), Trans::Pop);
    let game = StatePlay::new(5);
    assert_eq!(game.handle_event(Key::Escape), Trans::Push(GameState::Pause));
}

#[test]
fn score_text_is_decimal() {
    assert_eq!(ScoreRes::new().text(), "0");
    assert_eq!(ScoreRes { score: 120 }.text(), "120");
    assert_eq!(ScoreRes { score: 7 }.text(), "7");
    assert_eq!(ScoreRes { score: u64::MAX }.text(), "18446744073709551615");
    assert_eq!(StatePlay::new(1).score.text(), "0");
}

#[test]
fn spawned_asteroids_face_up_and_count_per_ship() {
    let mut sp = SpawnAsteroidSystem::new();
    let mut rng = RandomGen::new(8);
    let mut w = world_of(vec![ship_at(0, 150_000, 150_000), asteroid_at(1, 10_000, 10_000)], 2);
    sp.run(&mut w, &mut rng, 2000);
    assert_eq!(w.pending.len(), 1);
    assert_eq!(w.pending[0].transform.rotation, 0);
}

#[test]
fn boundary_twice_after_barrier_changes_nothing() {
    let mut w = world_of(
        vec![ship_at(0, 310_000, -5), bullet_at(1, 1_000, 400_000, 0, 0), asteroid_at(2, -3, 20)],
        3,
    );
    BoundarySystem.run(&mut w);
    w.maintain();
    let before: Vec<(u64, i64, i64)> = w.entities.iter().map(|e| (e.id, e.transform.x, e.transform.y)).collect();
    BoundarySystem.run(&mut w);
    assert!(w.doomed.is_empty());
    let after: Vec<(u64, i64, i64)> = w.entities.iter().map(|e| (e.id, e.transform.x, e.transform.y)).collect();
    assert_eq!(before, after);
    assert_eq!(before, vec![(0, 500, 299_500), (2, 299_500, 20)]);
}

#[test]
fn tick_appends_fired_bullet_under_fresh_id() {
    let mut game = StatePlay::new(4);
    let fire = ShipInput { accelerate: 0, rotate: 0, shoot: true, heading: Vector2 { x: 0, y: 1000 } };
    game.update(fire, 16);
    assert_eq!(game.world.entities.len(), 2);
    assert_eq!(game.world.entities[1].id, 1);
    assert!(game.world.entities[1].bullet.is_some());
    assert_eq!(game.world.next_id, 2);
}
