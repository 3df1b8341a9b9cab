//! Component records attached to entities, the arena constants, and the
//! per-entity soundness predicates that every stage preserves.

use vstd::prelude::*;
use crate::fixed::{Vector2, norm_sq, SPEED_LIMIT};

verus! {

/// Arena width in milli-units (300 units).
pub const ARENA_WIDTH: i64 = 300_000;

/// Arena height in milli-units (300 units).
pub const ARENA_HEIGHT: i64 = 300_000;

/// Inset applied when the ship wraps to the opposite edge (0.5 units).
pub const WRAP_INSET: i64 = 500;

/// Longest tick the stages accept, in milliseconds (one hour).
pub const MAX_DELTA_MS: i64 = 3_600_000;

/// One full turn in microradians.
pub const TAU_URAD: i64 = 6_283_185;

/// Unit of an input axis: axes range over `[-AXIS_UNIT, AXIS_UNIT]`.
pub const AXIS_UNIT: i64 = 1000;

/// Scale of a heading vector: a unit heading has length `HEADING_UNIT`.
pub const HEADING_UNIT: i64 = 1000;

/// Bound on a ship's acceleration (milli-units per second squared).
pub const ACCEL_LIMIT: i64 = 1_000_000_000;

/// Bound on a ship's turn rate (microradians per second squared).
pub const TURN_LIMIT: i64 = 1_000_000_000;

/// Bound on an entity's angular rate (microradians per second).
pub const SPIN_LIMIT: i64 = 4_000_000_000_000;

/// Bound on a reload interval or countdown, in milliseconds.
pub const RELOAD_LIMIT: i64 = 3_600_000;

/// Bound on any coordinate, in milli-units.
pub const POS_LIMIT: i64 = 10_000_000_000_000;

/// Bound on a sprite index.
pub const SPRITE_LIMIT: usize = 1000;

/// Muzzle speed added to the ship's velocity for a new bullet.
pub const BULLET_SPEED: i64 = 150_000;

/// Max-velocity of a bullet.
pub const BULLET_MAX_VELOCITY: i64 = 200_000;

/// Max-velocity of the ship.
pub const SHIP_MAX_VELOCITY: i64 = 100_000;

/// Max-velocity of an asteroid.
pub const ASTEROID_MAX_VELOCITY: i64 = 100_000;

/// Countdown between two explosion frames, in milliseconds.
pub const EXPLOSION_FRAME_TIME: i64 = 100;

/// Frame index at which an explosion is removed.
pub const EXPLOSION_FRAME_LIMIT: i32 = 4;

/// Position and orientation: translation in milli-units, rotation in
/// microradians within `[0, TAU_URAD)`.
#[derive(Clone, Copy, Debug, PartialEq, Eq, Structural)]
pub struct Transform {
    pub x: i64,
    pub y: i64,
    pub rotation: i64,
}

/// Motion state: velocity, the bound on its magnitude, and angular rate.
#[derive(Clone, Copy, Debug, PartialEq, Eq, Structural)]
pub struct Physical {
    pub velocity: Vector2,
    pub max_velocity: i64,
    pub rotation: i64,
}

/// Ship state: acceleration, turn rate, reload countdown and interval.
#[derive(Clone, Copy, Debug, PartialEq, Eq, Structural)]
pub struct Ship {
    pub acceleration: i64,
    pub rotate: i64,
    pub reload_timer: i64,
    pub time_to_reload: i64,
}

impl Ship {
    /// A ship accelerating at 80 units/s², turning at 180 rad/s², ready to
    /// fire, with a reload interval of 0.5 s.
    pub fn new() -> (r: Ship)
        ensures
            r == (Ship { acceleration: 80_000, rotate: 180_000_000, reload_timer: 0, time_to_reload: 500 }),
    {
        Ship { acceleration: 80_000, rotate: 180_000_000, reload_timer: 0, time_to_reload: 500 }
    }
}

/// Marker of a bullet entity.
#[derive(Clone, Copy, Debug, PartialEq, Eq, Structural)]
pub struct Bullet;

/// Marker of an asteroid entity.
#[derive(Clone, Copy, Debug, PartialEq, Eq, Structural)]
pub struct Asteroid;

/// Explosion animation state: countdown to the next frame and frame index.
#[derive(Clone, Copy, Debug, PartialEq, Eq, Structural)]
pub struct Explosion {
    pub time_to_update: i64,
    pub frame_count: i32,
}

impl Explosion {
    /// A fresh explosion at frame 0 with a full frame countdown.
    pub fn new() -> (r: Explosion)
        ensures
            r == (Explosion { time_to_update: EXPLOSION_FRAME_TIME, frame_count: 0 }),
    {
        Explosion { time_to_update: EXPLOSION_FRAME_TIME, frame_count: 0 }
    }
}

/// Classification of a collidable entity.
#[derive(Clone, Copy, Debug, PartialEq, Eq, Structural)]
pub enum ColliderType {
    Ship,
    Bullet,
    Asteroid,
}

/// Collision tag of an entity, fixed at creation.
#[derive(Clone, Copy, Debug, PartialEq, Eq, Structural)]
pub struct Collider {
    pub typ: ColliderType,
}

/// The sprite sheet an entity is drawn from.
#[derive(Clone, Copy, Debug, PartialEq, Eq, Structural)]
pub enum SpriteSheet {
    Ship,
    Bullet,
    Asteroids,
    Explosion,
}

/// Sprite selector: a sheet and a frame index within it.
#[derive(Clone, Copy, Debug, PartialEq, Eq, Structural)]
pub struct SpriteRender {
    pub sprite_sheet: SpriteSheet,
    pub sprite_number: usize,
}

/// A live entity or a queued one: its id and the components it owns.
#[derive(Clone, Copy, Debug)]
pub struct EntityRecord {
    pub id: u64,
    pub transform: Transform,
    pub physical: Option<Physical>,
    pub ship: Option<Ship>,
    pub bullet: Option<Bullet>,
    pub asteroid: Option<Asteroid>,
    pub explosion: Option<Explosion>,
    pub collider: Option<Collider>,
    pub sprite: Option<SpriteRender>,
}

pub open spec fn in_arena(t: Transform) -> bool {
    0 <= t.x <= ARENA_WIDTH && 0 <= t.y <= ARENA_HEIGHT
}

pub open spec fn physical_ok(p: Physical) -> bool {
    &&& 0 <= p.max_velocity <= SPEED_LIMIT
    &&& norm_sq(p.velocity) <= p.max_velocity * p.max_velocity
    &&& -SPIN_LIMIT <= p.rotation <= SPIN_LIMIT
}

pub open spec fn ship_ok(s: Ship) -> bool {
    &&& 0 <= s.acceleration <= ACCEL_LIMIT
    &&& 0 <= s.rotate <= TURN_LIMIT
    &&& 0 <= s.reload_timer <= RELOAD_LIMIT
    &&& 0 <= s.time_to_reload <= RELOAD_LIMIT
}

pub open spec fn explosion_ok(e: Explosion) -> bool {
    &&& 0 <= e.frame_count <= EXPLOSION_FRAME_LIMIT
    &&& -MAX_DELTA_MS <= e.time_to_update <= EXPLOSION_FRAME_TIME
}

/// The bounds every entity keeps at every point of a tick.
pub open spec fn entity_ok(r: EntityRecord) -> bool {
    &&& -POS_LIMIT <= r.transform.x <= POS_LIMIT
    &&& -POS_LIMIT <= r.transform.y <= POS_LIMIT
    &&& 0 <= r.transform.rotation < TAU_URAD
    &&& (r.physical matches Some(p) ==> physical_ok(p))
    &&& (r.ship matches Some(s) ==> ship_ok(s))
    &&& (r.explosion matches Some(e) ==> explosion_ok(e))
    &&& (r.sprite matches Some(s) ==> s.sprite_number <= SPRITE_LIMIT)
    &&& (r.explosion is Some && r.sprite is Some ==> r.sprite->Some_0.sprite_number + (EXPLOSION_FRAME_LIMIT
        - r.explosion->Some_0.frame_count) <= SPRITE_LIMIT)
}

/// An entity between ticks: sound, and inside the arena if it moves or
/// is a bullet.
pub open spec fn settled(r: EntityRecord) -> bool {
    &&& entity_ok(r)
    &&& (r.physical is Some || r.bullet is Some ==> in_arena(r.transform))
}

pub open spec fn is_bullet(r: EntityRecord) -> bool {
    r.bullet is Some
}

} // verus!
