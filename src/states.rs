//! The game in progress and the screen state machine around it.

use vstd::prelude::*;
use crate::fixed::{Vector2, norm_sq};
use crate::components::{
    EntityRecord, Transform, Physical, Ship, Collider, ColliderType, SpriteRender, SpriteSheet, settled, in_arena, ship_ok, physical_ok, entity_ok,
    ARENA_WIDTH, ARENA_HEIGHT, SHIP_MAX_VELOCITY,
};
use crate::world::{World, strays_doomed, survivors, numbered, admitted};
use crate::control::{ShipControlSystem, ShipInput, input_ok, delta_ok, controlled, shots};
use crate::motion::{PhysicalSystem, BoundarySystem, moved, wrapped, strays};
use crate::spawn::{SpawnAsteroidSystem, ship_count, spawned_by_ship};
use crate::collision::{CollisionSystem, collect_colliders, colliders_of, collision_events, ship_hit_spec};
use crate::effects::{DeletionSystem, ExplosionSystem, ScoreRes, raised, bullet_hits, animated, finished, event_ids, explosions_for};
use crate::random::RandomGen;

verus! {

/// The screens of the game.
#[derive(Clone, Copy, Debug, PartialEq, Eq, Structural)]
pub enum GameState {
    Menu,
    Play,
    Pause,
    Over,
}

/// The keys the screens react to.
#[derive(Clone, Copy, Debug, PartialEq, Eq, Structural)]
pub enum Key {
    Escape,
    Space,
    Other,
}

/// A request to the host's state stack.
#[derive(Clone, Copy, Debug, PartialEq, Eq, Structural)]
pub enum Trans {
    Stay,
    Push(GameState),
    Pop,
    Switch(GameState),
}

pub open spec fn key_trans(state: GameState, key: Key) -> Trans {
    match (state, key) {
        (GameState::Menu, Key::Space) => Trans::Push(GameState::Play),
        (GameState::Play, Key::Escape) => Trans::Push(GameState::Pause),
        (GameState::Pause, Key::Escape) => Trans::Pop,
        (GameState::Over, Key::Space) => Trans::Pop,
        _ => Trans::Stay,
    }
}

/// The menu starts a game on Space; a game pauses on Escape; the pause
/// screen resumes on Escape; the game-over screen returns on Space.
pub fn handle_event(state: GameState, key: Key) -> (r: Trans)
    ensures
        r == key_trans(state, key),
{
    match (state, key) {
        (GameState::Menu, Key::Space) => Trans::Push(GameState::Play),
        (GameState::Play, Key::Escape) => Trans::Push(GameState::Pause),
        (GameState::Pause, Key::Escape) => Trans::Pop,
        (GameState::Over, Key::Space) => Trans::Pop,
        _ => Trans::Stay,
    }
}

/// The title screen.
pub struct StateMenu;

impl StateMenu {
    /// Space starts a game.
    pub fn handle_event(&self, key: Key) -> (r: Trans)
        ensures
            r == key_trans(GameState::Menu, key),
    {
        handle_event(GameState::Menu, key)
    }
}

/// The pause screen.
pub struct StatePause;

impl StatePause {
    /// Escape resumes the game.
    pub fn handle_event(&self, key: Key) -> (r: Trans)
        ensures
            r == key_trans(GameState::Pause, key),
    {
        handle_event(GameState::Pause, key)
    }
}

/// The game-over screen, showing the final score.
pub struct StateOver {
    pub score: u64,
}

impl StateOver {
    pub fn new(score: u64) -> (r: StateOver)
        ensures
            r.score == score,
    {
        StateOver { score }
    }

    /// Space returns to the title screen.
    pub fn handle_event(&self, key: Key) -> (r: Trans)
        ensures
            r == key_trans(GameState::Over, key),
    {
        handle_event(GameState::Over, key)
    }
}

/// The ship as created at session start: arena centre, facing up, at rest.
pub open spec fn initial_ship(id: u64) -> EntityRecord {
    EntityRecord {
        id,
        transform: Transform { x: 150_000, y: 150_000, rotation: 0 },
        physical: Some(Physical { velocity: Vector2 { x: 0, y: 0 }, max_velocity: SHIP_MAX_VELOCITY, rotation: 0 }),
        ship: Some(Ship { acceleration: 80_000, rotate: 180_000_000, reload_timer: 0, time_to_reload: 500 }),
        bullet: None,
        asteroid: None,
        explosion: None,
        collider: Some(Collider { typ: ColliderType::Ship }),
        sprite: Some(SpriteRender { sprite_sheet: SpriteSheet::Ship, sprite_number: 0 }),
    }
}

/// An entity after the moving stages of a tick: ship control, integration
/// and the boundary.
pub open spec fn advanced(r: EntityRecord, input: ShipInput, delta: int) -> EntityRecord {
    wrapped(moved(controlled(r, input, delta), delta))
}

pub open spec fn advanced_all(s: Seq<EntityRecord>, input: ShipInput, delta: int) -> Seq<EntityRecord> {
    Seq::new(s.len(), |i: int| advanced(s[i], input, delta))
}

/// The live entities that survive a tick, in their state after it: every
/// entity advanced and animated, less the off-arena bullets, the entities
/// destroyed by collisions and the finished explosions.
pub open spec fn tick_survivors(s0: Seq<EntityRecord>, input: ShipInput, delta: int) -> Seq<EntityRecord> {
    let m = Seq::new(s0.len(), |i: int| moved(controlled(s0[i], input, delta), delta));
    let a = advanced_all(s0, input, delta);
    let e = Seq::new(a.len(), |i: int| animated(a[i], delta));
    let d = strays(m) + event_ids(collision_events(colliders_of(a))) + finished(a, delta);
    survivors(e, d)
}

/// The entities created in a tick, in queue order: the spawned asteroids
/// `sp`, the bullets fired, then one explosion per bullet hit.
pub open spec fn tick_creations(
    sp: Seq<EntityRecord>,
    s0: Seq<EntityRecord>,
    input: ShipInput,
    delta: int,
) -> Seq<EntityRecord> {
    let a = advanced_all(s0, input, delta);
    sp + shots(s0, input, delta) + explosions_for(a, collision_events(colliders_of(a)))
}

/// After a tick from store `s0`, the entities behind the survivors are the
/// tick's creations with spawned asteroids `sp` (at most one per ship, each
/// clear of a ship), under consecutive fresh ids from `id0`, as many as ids
/// remain.
pub open spec fn created_in_tick(
    sp: Seq<EntityRecord>,
    s0: Seq<EntityRecord>,
    spawner: SpawnAsteroidSystem,
    input: ShipInput,
    delta: int,
    id0: u64,
    s1: Seq<EntityRecord>,
    id1: u64,
) -> bool {
    let q = tick_creations(sp, s0, input, delta);
    let k = admitted(q.len() as int, id0);
    &&& sp.len() <= ship_count(s0)
    &&& forall|j: int| 0 <= j < sp.len() ==> spawned_by_ship(#[trigger] sp[j], s0, spawner)
    &&& s1.skip(tick_survivors(s0, input, delta).len() as int) == numbered(q.take(k), id0 as int)
    &&& id1 == id0 + k
}

/// Two stores agree on what decides whether an entity is a stray.
pub open spec fn same_places(a: Seq<EntityRecord>, b: Seq<EntityRecord>) -> bool {
    &&& a.len() == b.len()
    &&& forall|i: int|
        0 <= i < a.len() ==> (#[trigger] a[i]).id == b[i].id && a[i].transform == b[i].transform
            && a[i].physical == b[i].physical && a[i].bullet == b[i].bullet
}

proof fn lemma_strays_kept(a: Seq<EntityRecord>, d: Seq<u64>, b: Seq<EntityRecord>, e: Seq<u64>)
    requires
        strays_doomed(a, d),
        same_places(a, b),
        e.take(d.len() as int) == d,
        d.len() <= e.len(),
    ensures
        strays_doomed(b, e),
{
    assert forall|i: int|
        #![trigger b[i]]
        0 <= i < b.len() && (b[i].physical is Some || b[i].bullet is Some) && !in_arena(b[i].transform) implies e.contains(
            b[i].id,
        ) by {
        assert(a[i].id == b[i].id);
        assert(d.contains(a[i].id));
        let k = choose|k: int| 0 <= k < d.len() && d[k] == a[i].id;
        assert(e[k] == e.take(d.len() as int)[k]);
    }
}

/// A game in progress: the entity store, the score, the spawner and the
/// random source. Each `update` is one tick of the stages in order.
pub struct StatePlay {
    pub world: World,
    pub score: ScoreRes,
    pub spawner: SpawnAsteroidSystem,
    pub rng: RandomGen,
}

impl StatePlay {
    pub open spec fn wf(&self) -> bool {
        self.world.wf() && self.spawner.wf()
    }

    /// A new session: the ship at the arena centre, score zero, the
    /// spawner's first countdown, and a random stream fixed by `seed`.
    pub fn new(seed: u64) -> (r: StatePlay)
        ensures
            r.wf(),
            r.world.entities@ == seq![initial_ship(0)],
            r.world.next_id == 1,
            r.score.score == 0,
            r.spawner == SpawnAsteroidSystem::new_spec(),
    {
        let mut world = World::new();
        let ship = EntityRecord {
            id: 0,
            transform: Transform { x: ARENA_WIDTH / 2, y: ARENA_HEIGHT / 2, rotation: 0 },
            physical: Some(Physical { velocity: Vector2 { x: 0, y: 0 }, max_velocity: SHIP_MAX_VELOCITY, rotation: 0 }),
            ship: Some(Ship::new()),
            bullet: None,
            asteroid: None,
            explosion: None,
            collider: Some(Collider { typ: ColliderType::Ship }),
            sprite: Some(SpriteRender { sprite_sheet: SpriteSheet::Ship, sprite_number: 0 }),
        };
        world.entities.push(ship);
        world.next_id = 1;
        assert(world.entities@ == seq![initial_ship(0)]);
        assert(ship_ok(ship.ship->Some_0));
        assert(norm_sq(Vector2 { x: 0, y: 0 }) <= SHIP_MAX_VELOCITY * SHIP_MAX_VELOCITY) by (nonlinear_arith);
        assert(physical_ok(ship.physical->Some_0));
        assert(in_arena(ship.transform));
        assert(entity_ok(ship));
        assert(settled(world.entities@[0]));
        assert(world.wf());
        StatePlay { world, score: ScoreRes::new(), spawner: SpawnAsteroidSystem::new(), rng: RandomGen::new(seed) }
    }

    /// Escape pauses the game.
    pub fn handle_event(&self, key: Key) -> (r: Trans)
        ensures
            r == key_trans(GameState::Play, key),
    {
        handle_event(GameState::Play, key)
    }

    /// One tick: spawner, ship control, integration, boundary, collision,
    /// deletion and scoring, explosions, then the barrier that applies the
    /// queued creations and deletions. Returns the switch to the game-over
    /// screen when an asteroid hit the ship.
    pub fn update(&mut self, input: ShipInput, delta: i64) -> (t: Trans)
        requires
            old(self).wf(),
            input_ok(input),
            delta_ok(delta),
        ensures
            final(self).wf(),
            forall|i: int|
                0 <= i < final(self).world.entities@.len() ==> ((#[trigger] final(self).world.entities@[i]).physical matches Some(
                    p,
                ) ==> norm_sq(p.velocity) <= p.max_velocity * p.max_velocity),
            final(self).score.score >= old(self).score.score,
            final(self).world.entities@.take(tick_survivors(old(self).world.entities@, input, delta as int).len() as int)
                == tick_survivors(old(self).world.entities@, input, delta as int),
            exists|sp: Seq<EntityRecord>|
                #[trigger] created_in_tick(
                    sp,
                    old(self).world.entities@,
                    old(self).spawner,
                    input,
                    delta as int,
                    old(self).world.next_id,
                    final(self).world.entities@,
                    final(self).world.next_id,
                ),
            ({
                let a = advanced_all(old(self).world.entities@, input, delta as int);
                &&& final(self).score.score == raised(
                    old(self).score.score,
                    bullet_hits(a, collision_events(colliders_of(a))),
                )
                &&& t == (if ship_hit_spec(colliders_of(a)) {
                    Trans::Switch(GameState::Over)
                } else {
                    Trans::Stay
                })
            }),
    {
        let ghost s0 = self.world.entities@;
        let ghost sp0 = self.spawner;
        let ghost id0 = self.world.next_id;
        self.spawner.run(&mut self.world, &mut self.rng, delta);
        let ghost sp = self.world.pending@;
        assert(forall|j: int| 0 <= j < sp.len() ==> spawned_by_ship(#[trigger] sp[j], s0, sp0));
        assert(sp.len() <= ship_count(s0));
        ShipControlSystem.run(&mut self.world, input, delta);
        PhysicalSystem.run(&mut self.world, delta);
        let ghost m = self.world.entities@;
        assert(m =~= Seq::new(s0.len(), |i: int| moved(controlled(s0[i], input, delta as int), delta as int)));
        BoundarySystem.run(&mut self.world);
        let ghost a = self.world.entities@;
        assert(a =~= advanced_all(s0, input, delta as int));
        let colliders = collect_colliders(&self.world.entities);
        let handler = CollisionSystem.run(&colliders);
        let ghost d1 = self.world.doomed@;
        DeletionSystem.run(&mut self.world, &handler.collide_entity, &mut self.score);
        assert(self.world.doomed@.take(d1.len() as int) == d1);
        proof {
            lemma_strays_kept(a, d1, self.world.entities@, self.world.doomed@);
        }
        let ghost d2 = self.world.doomed@;
        ExplosionSystem.run(&mut self.world, delta);
        assert(self.world.doomed@.take(d2.len() as int) == d2);
        proof {
            lemma_strays_kept(a, d2, self.world.entities@, self.world.doomed@);
        }
        let ghost e = self.world.entities@;
        let ghost d = self.world.doomed@;
        let ghost q = self.world.pending@;
        assert(q =~= tick_creations(sp, s0, input, delta as int));
        assert(e =~= Seq::new(a.len(), |i: int| animated(a[i], delta as int)));
        assert(d =~= strays(m) + event_ids(collision_events(colliders_of(a))) + finished(a, delta as int));
        self.world.maintain();
        proof {
            let sv = survivors(e, d);
            assert(sv == tick_survivors(s0, input, delta as int));
            assert(self.world.entities@.take(sv.len() as int) =~= sv);
            let k = admitted(q.len() as int, id0);
            assert(self.world.entities@.skip(sv.len() as int) =~= numbered(q.take(k), id0 as int));
            assert(created_in_tick(sp, s0, sp0, input, delta as int, id0, self.world.entities@, self.world.next_id));
        }
        if handler.ship_hit {
            Trans::Switch(GameState::Over)
        } else {
            Trans::Stay
        }
    }
}

} // verus!
