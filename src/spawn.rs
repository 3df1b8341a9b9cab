//! The asteroid spawner: a countdown, then one asteroid per ship at a
//! random point clear of it.

use vstd::prelude::*;
use crate::fixed::{Vector2, norm_sq};
use crate::components::{
    EntityRecord, Transform, Physical, Asteroid, Collider, ColliderType, SpriteRender, SpriteSheet, settled,
    in_arena, POS_LIMIT, ARENA_WIDTH, ARENA_HEIGHT, ASTEROID_MAX_VELOCITY, SPIN_LIMIT,
};
use crate::world::{World};
use crate::random::RandomGen;
use crate::control::delta_ok;

verus! {

/// Rejection-sampling attempts per asteroid before the batch gives up on
/// that ship for this countdown.
pub const SPAWN_ATTEMPTS: u32 = 10_000;

/// Number of asteroid sprite variants.
pub const ASTEROID_VARIANTS: u64 = 3;

/// Bound on a spawner's velocity range, so that spawned velocities stay
/// under the asteroid max-velocity.
pub const SPAWN_VELOCITY_LIMIT: i64 = 70_000;

/// Bound on the spawner's clearance and spawn times.
pub const SPAWN_PARAM_LIMIT: i64 = 3_600_000;

pub open spec fn dist_sq(ax: int, ay: int, bx: int, by: int) -> int {
    (ax - bx) * (ax - bx) + (ay - by) * (ay - by)
}

/// A point strictly farther than `distance` from the ship.
pub open spec fn clears_spec(ship: Transform, x: int, y: int, distance: int) -> bool {
    dist_sq(ship.x as int, ship.y as int, x, y) > distance * distance
}

/// The asteroid built from drawn values: velocity components
/// `vx - max_velocity`, `vy - max_velocity`, spin `spin - max_rotation`.
pub open spec fn asteroid_spec(
    sp: SpawnAsteroidSystem,
    x: int,
    y: int,
    vx: int,
    vy: int,
    spin: int,
    variant: int,
) -> EntityRecord {
    EntityRecord {
        id: 0,
        transform: Transform { x: x as i64, y: y as i64, rotation: 0 },
        physical: Some(
            Physical {
                velocity: Vector2 { x: (vx - sp.max_velocity) as i64, y: (vy - sp.max_velocity) as i64 },
                max_velocity: ASTEROID_MAX_VELOCITY,
                rotation: (spin - sp.max_rotation) as i64,
            },
        ),
        ship: None,
        bullet: None,
        asteroid: Some(Asteroid),
        explosion: None,
        collider: Some(Collider { typ: ColliderType::Asteroid }),
        sprite: Some(SpriteRender { sprite_sheet: SpriteSheet::Asteroids, sprite_number: variant as usize }),
    }
}

/// What holds of every asteroid spawned near `ship`.
pub open spec fn spawned_near(a: EntityRecord, ship: Transform, sp: SpawnAsteroidSystem) -> bool {
    &&& settled(a)
    &&& in_arena(a.transform)
    &&& a.transform.x < ARENA_WIDTH && a.transform.y < ARENA_HEIGHT
    &&& a.transform.rotation == 0
    &&& clears_spec(ship, a.transform.x as int, a.transform.y as int, sp.distance_to_ship as int)
    &&& a.asteroid is Some
    &&& a.collider == Some(Collider { typ: ColliderType::Asteroid })
    &&& a.physical matches Some(p) && -sp.max_velocity <= p.velocity.x <= sp.max_velocity
        && -sp.max_velocity <= p.velocity.y <= sp.max_velocity && -sp.max_rotation <= p.rotation <= sp.max_rotation
        && p.max_velocity == ASTEROID_MAX_VELOCITY
    &&& a.sprite matches Some(s) && s.sprite_sheet == SpriteSheet::Asteroids && s.sprite_number < 3
}

/// `a` was spawned near one of the ships of `s`.
pub open spec fn spawned_by_ship(a: EntityRecord, s: Seq<EntityRecord>, sp: SpawnAsteroidSystem) -> bool {
    exists|j: int| 0 <= j < s.len() && s[j].ship is Some && spawned_near(a, #[trigger] s[j].transform, sp)
}

/// The number of entities with ship state.
pub open spec fn ship_count(s: Seq<EntityRecord>) -> nat
    decreases s.len(),
{
    if s.len() == 0 {
        0
    } else {
        ship_count(s.drop_last()) + if s.last().ship is Some {
            1nat
        } else {
            0nat
        }
    }
}

pub open spec fn has_ship(s: Seq<EntityRecord>) -> bool {
    exists|i: int| 0 <= i < s.len() && (#[trigger] s[i]).ship is Some
}

/// Countdown and parameters of the asteroid spawner; times in
/// milliseconds, velocities in milli-units per second, spin in
/// microradians per second, clearance in milli-units.
#[derive(Clone, Copy, Debug, PartialEq, Eq, Structural)]
pub struct SpawnAsteroidSystem {
    pub time_to_spawn: i64,
    pub max_velocity: i64,
    pub max_rotation: i64,
    pub distance_to_ship: i64,
    pub average_spawn_time: i64,
}

impl SpawnAsteroidSystem {
    pub open spec fn new_spec() -> SpawnAsteroidSystem {
        SpawnAsteroidSystem {
            time_to_spawn: 2000,
            max_velocity: 60_000,
            max_rotation: 5_000_000,
            distance_to_ship: 200_000,
            average_spawn_time: 500,
        }
    }

    pub open spec fn wf(&self) -> bool {
        &&& 0 <= self.time_to_spawn <= SPAWN_PARAM_LIMIT + 1000
        &&& 0 <= self.max_velocity <= SPAWN_VELOCITY_LIMIT
        &&& 0 <= self.max_rotation <= SPIN_LIMIT
        &&& 0 <= self.distance_to_ship <= SPAWN_PARAM_LIMIT
        &&& 0 <= self.average_spawn_time <= SPAWN_PARAM_LIMIT
    }

    /// First spawn after 2 s, velocities within 60 units/s, spin within
    /// 5 rad/s, clearance 200 units, average interval 0.5 s.
    pub fn new() -> (r: SpawnAsteroidSystem)
        ensures
            r == Self::new_spec(),
            r.wf(),
    {
        SpawnAsteroidSystem {
            time_to_spawn: 2000,
            max_velocity: 60_000,
            max_rotation: 5_000_000,
            distance_to_ship: 200_000,
            average_spawn_time: 500,
        }
    }

    /// Whether a candidate point is strictly farther than the clearance
    /// from the ship.
    pub fn clears_ship(&self, ship: Transform, x: i64, y: i64) -> (r: bool)
        requires
            -POS_LIMIT <= ship.x <= POS_LIMIT,
            -POS_LIMIT <= ship.y <= POS_LIMIT,
            0 <= x <= ARENA_WIDTH,
            0 <= y <= ARENA_HEIGHT,
            self.wf(),
        ensures
            r == clears_spec(ship, x as int, y as int, self.distance_to_ship as int),
    {
        let dx = ship.x as i128 - x as i128;
        let dy = ship.y as i128 - y as i128;
        let d = self.distance_to_ship as i128;
        assert(0 <= dx * dx <= 1_000_000_000_000_000_000_000_000_000) by (nonlinear_arith)
            requires
                -20_000_000_000_000 <= dx <= 20_000_000_000_000,
        ;
        assert(0 <= dy * dy <= 1_000_000_000_000_000_000_000_000_000) by (nonlinear_arith)
            requires
                -20_000_000_000_000 <= dy <= 20_000_000_000_000,
        ;
        assert(0 <= d * d <= SPAWN_PARAM_LIMIT * SPAWN_PARAM_LIMIT) by (nonlinear_arith)
            requires
                0 <= d <= SPAWN_PARAM_LIMIT,
        ;
        dx * dx + dy * dy > d * d
    }

    /// The asteroid built from drawn values: `x`, `y` in the arena,
    /// `vx`, `vy` in `[0, 2 * max_velocity]`, `spin` in
    /// `[0, 2 * max_rotation]`, `variant` below the variant count.
    pub fn asteroid_at(&self, x: i64, y: i64, vx: i64, vy: i64, spin: i64, variant: u64) -> (r: EntityRecord)
        requires
            self.wf(),
            0 <= x <= ARENA_WIDTH,
            0 <= y <= ARENA_HEIGHT,
            0 <= vx <= 2 * self.max_velocity,
            0 <= vy <= 2 * self.max_velocity,
            0 <= spin <= 2 * self.max_rotation,
            variant < ASTEROID_VARIANTS,
        ensures
            r == asteroid_spec(*self, x as int, y as int, vx as int, vy as int, spin as int, variant as int),
            settled(r),
    {
        let v = Vector2 { x: vx - self.max_velocity, y: vy - self.max_velocity };
        assert(norm_sq(v) <= ASTEROID_MAX_VELOCITY * ASTEROID_MAX_VELOCITY) by (nonlinear_arith)
            requires
                -SPAWN_VELOCITY_LIMIT <= v.x <= SPAWN_VELOCITY_LIMIT,
                -SPAWN_VELOCITY_LIMIT <= v.y <= SPAWN_VELOCITY_LIMIT,
        ;
        EntityRecord {
            id: 0,
            transform: Transform { x, y, rotation: 0 },
            physical: Some(
                Physical { velocity: v, max_velocity: ASTEROID_MAX_VELOCITY, rotation: spin - self.max_rotation },
            ),
            ship: None,
            bullet: None,
            asteroid: Some(Asteroid),
            explosion: None,
            collider: Some(Collider { typ: ColliderType::Asteroid }),
            sprite: Some(SpriteRender { sprite_sheet: SpriteSheet::Asteroids, sprite_number: variant as usize }),
        }
    }

    /// One asteroid near `ship`: a point drawn uniformly in the arena until
    /// it clears the ship (at most `SPAWN_ATTEMPTS` draws), then drawn
    /// velocity, spin and sprite variant.
    pub fn spawn_near(&self, ship: Transform, rng: &mut RandomGen) -> (r: Option<EntityRecord>)
        requires
            self.wf(),
            -POS_LIMIT <= ship.x <= POS_LIMIT,
            -POS_LIMIT <= ship.y <= POS_LIMIT,
        ensures
            r matches Some(a) ==> spawned_near(a, ship, *self),
    {
        let mut attempts: u32 = 0;
        while attempts < SPAWN_ATTEMPTS
            invariant
                self.wf(),
                -POS_LIMIT <= ship.x <= POS_LIMIT,
                -POS_LIMIT <= ship.y <= POS_LIMIT,
            decreases SPAWN_ATTEMPTS - attempts,
        {
            let x = rng.next_below(ARENA_WIDTH as u64) as i64;
            let y = rng.next_below(ARENA_HEIGHT as u64) as i64;
            if self.clears_ship(ship, x, y) {
                let vx = rng.next_below((2 * self.max_velocity + 1) as u64) as i64;
                let vy = rng.next_below((2 * self.max_velocity + 1) as u64) as i64;
                let spin = rng.next_below((2 * self.max_rotation + 1) as u64) as i64;
                let variant = rng.next_below(ASTEROID_VARIANTS);
                return Some(self.asteroid_at(x, y, vx, vy, spin, variant));
            }
            attempts = attempts + 1;
        }
        None
    }

    /// Counts down by `delta`; once the countdown runs out, queues one
    /// asteroid per ship and restarts it at `average_spawn_time` plus a
    /// uniform draw below one second. Without a ship it does nothing.
    pub fn run(&mut self, world: &mut World, rng: &mut RandomGen, delta: i64)
        requires
            old(self).wf(),
            old(world).sound(),
            forall|i: int| 0 <= i < old(world).entities@.len() ==> settled(#[trigger] old(world).entities@[i]),
            delta_ok(delta),
        ensures
            final(self).wf(),
            final(world).sound(),
            final(world).entities@ == old(world).entities@,
            final(world).doomed@ == old(world).doomed@,
            final(world).next_id == old(world).next_id,
            final(self).max_velocity == old(self).max_velocity,
            final(self).max_rotation == old(self).max_rotation,
            final(self).distance_to_ship == old(self).distance_to_ship,
            final(self).average_spawn_time == old(self).average_spawn_time,
            final(world).pending@.take(old(world).pending@.len() as int) == old(world).pending@,
            final(world).pending@.len() <= old(world).pending@.len() + ship_count(old(world).entities@),
            forall|k: int|
                old(world).pending@.len() <= k < final(world).pending@.len() ==> spawned_by_ship(
                    #[trigger] final(world).pending@[k],
                    old(world).entities@,
                    *old(self),
                ),
            !has_ship(old(world).entities@) ==> *final(self) == *old(self) && final(world).pending@ == old(
                world,
            ).pending@,
            has_ship(old(world).entities@) && old(self).time_to_spawn - delta > 0 ==> final(self).time_to_spawn
                == old(self).time_to_spawn - delta && final(world).pending@ == old(world).pending@,
            has_ship(old(world).entities@) && old(self).time_to_spawn - delta <= 0 ==> old(self).average_spawn_time
                <= final(self).time_to_spawn < old(self).average_spawn_time + 1000,
    {
        let n = world.entities.len();
        let mut found = false;
        let mut i: usize = 0;
        while i < n
            invariant
                n == world.entities@.len(),
                i <= n,
                found == (exists|j: int| 0 <= j < i && (#[trigger] world.entities@[j]).ship is Some),
            decreases n - i,
        {
            if world.entities[i].ship.is_some() {
                found = true;
            }
            i = i + 1;
        }
        if !found {
            return;
        }
        if self.time_to_spawn - delta > 0 {
            self.time_to_spawn = self.time_to_spawn - delta;
            return;
        }
        let ghost p0 = world.pending@;
        let ghost sp = *self;
        let mut i: usize = 0;
        while i < n
            invariant
                n == world.entities@.len(),
                i <= n,
                *self == sp,
                sp.wf(),
                world.entities@ == old(world).entities@,
                world.doomed@ == old(world).doomed@,
                world.next_id == old(world).next_id,
                old(world).sound(),
                forall|j: int| 0 <= j < n ==> settled(#[trigger] world.entities@[j]),
                world.pending@.take(p0.len() as int) == p0,
                p0.len() <= world.pending@.len() <= p0.len() + ship_count(world.entities@.take(i as int)),
                forall|j: int| 0 <= j < world.pending@.len() ==> settled(#[trigger] world.pending@[j]),
                forall|k: int|
                    p0.len() <= k < world.pending@.len() ==> spawned_by_ship(
                        #[trigger] world.pending@[k],
                        world.entities@,
                        sp,
                    ),
            decreases n - i,
        {
            let r = world.entities[i];
            assert(world.entities@.take(i + 1).drop_last() == world.entities@.take(i as int));
            if r.ship.is_some() {
                proof {
                    assert(settled(world.entities@[i as int]));
                }
                match self.spawn_near(r.transform, rng) {
                    Some(a) => {
                        let ghost before = world.pending@;
                        world.create(a);
                        assert(world.pending@.take(p0.len() as int) == before.take(p0.len() as int));
                        assert(spawned_by_ship(a, world.entities@, sp)) by {
                            assert(world.entities@[i as int] == r);
                        }
                        assert forall|k: int|
                            p0.len() <= k < world.pending@.len() implies spawned_by_ship(
                                #[trigger] world.pending@[k],
                                world.entities@,
                                sp,
                            ) by {
                            if k < before.len() {
                                assert(world.pending@[k] == before[k]);
                            }
                        }
                    },
                    None => {},
                }
            }
            i = i + 1;
        }
        assert(world.entities@.take(n as int) == world.entities@);
        let extra = rng.next_below(1000) as i64;
        self.time_to_spawn = self.average_spawn_time + extra;
    }
}

} // verus!
