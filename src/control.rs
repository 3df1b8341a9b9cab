//! Ship control: input axes and the fire action turn into velocity, spin and
//! queued bullets.

use vstd::prelude::*;
use crate::fixed::{Vector2, norm_sq, tdiv, tdiv_wide, clamp_spec, clamp_velocity, lemma_component_bound};
use crate::components::{
    EntityRecord, Physical, Ship, Bullet, Collider, ColliderType, SpriteRender, SpriteSheet, settled,
    AXIS_UNIT, HEADING_UNIT, MAX_DELTA_MS, ACCEL_LIMIT, TURN_LIMIT, BULLET_MAX_VELOCITY,
};
use crate::world::{World, ids_unique, ids_below};

verus! {

/// One tick's input for the ship: axes in `[-AXIS_UNIT, AXIS_UNIT]`, the
/// fire action, and the forward unit vector of the ship's current
/// orientation, scaled by `HEADING_UNIT`.
#[derive(Clone, Copy, Debug, PartialEq, Eq, Structural)]
pub struct ShipInput {
    pub accelerate: i64,
    pub rotate: i64,
    pub shoot: bool,
    pub heading: Vector2,
}

pub open spec fn input_ok(i: ShipInput) -> bool {
    &&& -AXIS_UNIT <= i.accelerate <= AXIS_UNIT
    &&& -AXIS_UNIT <= i.rotate <= AXIS_UNIT
    &&& norm_sq(i.heading) <= HEADING_UNIT * HEADING_UNIT
}

pub open spec fn delta_ok(delta: i64) -> bool {
    0 <= delta <= MAX_DELTA_MS
}

/// Velocity gained along one heading component:
/// `delta * axis * acceleration * heading`, in milli-units per second.
pub open spec fn thrust(delta: int, axis: int, accel: int, h: int) -> int {
    tdiv(delta * axis * accel * h, 1_000_000_000)
}

/// The ship's velocity after thrust, clamped to its max-velocity.
pub open spec fn steered(p: Physical, s: Ship, input: ShipInput, delta: int) -> Vector2 {
    clamp_spec(
        Vector2 {
            x: (p.velocity.x + thrust(delta, input.accelerate as int, s.acceleration as int, input.heading.x as int)) as i64,
            y: (p.velocity.y + thrust(delta, input.accelerate as int, s.acceleration as int, input.heading.y as int)) as i64,
        },
        p.max_velocity as int,
    )
}

/// Angular rate for this tick: `rotate * delta * turn_rate`, not accumulated.
pub open spec fn spin_of(s: Ship, input: ShipInput, delta: int) -> int {
    tdiv(input.rotate * delta * s.rotate, 1_000_000)
}

/// A ship fires when its reload countdown has run out and fire is held.
pub open spec fn fires(s: Ship, input: ShipInput) -> bool {
    s.reload_timer <= 0 && input.shoot
}

/// The reload countdown after one tick.
pub open spec fn reload_after(s: Ship, input: ShipInput, delta: int) -> i64 {
    if s.reload_timer <= 0 {
        if input.shoot {
            s.time_to_reload
        } else {
            s.reload_timer
        }
    } else if s.reload_timer - delta > 0 {
        (s.reload_timer - delta) as i64
    } else {
        0
    }
}

pub open spec fn is_controlled(r: EntityRecord) -> bool {
    r.physical is Some && r.ship is Some
}

/// An entity after ship control; entities without ship state are unchanged.
pub open spec fn controlled(r: EntityRecord, input: ShipInput, delta: int) -> EntityRecord {
    if is_controlled(r) {
        let p = r.physical->Some_0;
        let s = r.ship->Some_0;
        EntityRecord {
            physical: Some(
                Physical { velocity: steered(p, s, input, delta), rotation: spin_of(s, input, delta) as i64, ..p },
            ),
            ship: Some(Ship { reload_timer: reload_after(s, input, delta), ..s }),
            ..r
        }
    } else {
        r
    }
}

/// The bullet fired by ship `r` (already controlled): at the ship's
/// transform, moving at the ship's velocity plus the muzzle speed along the
/// heading, clamped to the bullet's max-velocity.
pub open spec fn bullet_from(r: EntityRecord, input: ShipInput) -> EntityRecord {
    let v = r.physical->Some_0.velocity;
    EntityRecord {
        id: 0,
        transform: r.transform,
        physical: Some(
            Physical {
                velocity: clamp_spec(
                    Vector2 {
                        x: (v.x + input.heading.x * 150) as i64,
                        y: (v.y + input.heading.y * 150) as i64,
                    },
                    BULLET_MAX_VELOCITY as int,
                ),
                max_velocity: BULLET_MAX_VELOCITY,
                rotation: 0,
            },
        ),
        ship: None,
        bullet: Some(Bullet),
        asteroid: None,
        explosion: None,
        collider: Some(Collider { typ: ColliderType::Bullet }),
        sprite: Some(SpriteRender { sprite_sheet: SpriteSheet::Bullet, sprite_number: 0 }),
    }
}

/// The bullets queued by ship control over `s`, in entity order.
pub open spec fn shots(s: Seq<EntityRecord>, input: ShipInput, delta: int) -> Seq<EntityRecord>
    decreases s.len(),
{
    if s.len() == 0 {
        seq![]
    } else {
        let rest = shots(s.drop_last(), input, delta);
        let r = s.last();
        if is_controlled(r) && fires(r.ship->Some_0, input) {
            rest.push(bullet_from(controlled(r, input, delta), input))
        } else {
            rest
        }
    }
}

/// Reads the ship's input and writes velocity, spin and reload state.
pub struct ShipControlSystem;

impl ShipControlSystem {
    /// Ship control for one entity with ship state; returns the controlled
    /// record and, when it fires, the bullet to queue.
    pub fn control_ship(r: EntityRecord, input: ShipInput, delta: i64) -> (res: (EntityRecord, Option<EntityRecord>))
        requires
            is_controlled(r),
            settled(r),
            input_ok(input),
            delta_ok(delta),
        ensures
            res.0 == controlled(r, input, delta as int),
            settled(res.0),
            res.1 == (if fires(r.ship->Some_0, input) {
                Some(bullet_from(controlled(r, input, delta as int), input))
            } else {
                None
            }),
            res.1 matches Some(b) ==> settled(b),
    {
        let p = r.physical.unwrap();
        let s = r.ship.unwrap();
        proof {
            lemma_component_bound(p.velocity, p.max_velocity as int);
            lemma_component_bound(input.heading, HEADING_UNIT as int);
        }
        let d = delta as i128;
        let ax = input.accelerate as i128;
        let acc = s.acceleration as i128;
        let hx = input.heading.x as i128;
        let hy = input.heading.y as i128;
        assert(-3_600_000_000 <= d * ax <= 3_600_000_000) by (nonlinear_arith)
            requires
                0 <= d <= MAX_DELTA_MS,
                -AXIS_UNIT <= ax <= AXIS_UNIT,
        ;
        assert(-3_600_000_000_000_000_000 <= d * ax * acc <= 3_600_000_000_000_000_000) by (nonlinear_arith)
            requires
                -3_600_000_000 <= d * ax <= 3_600_000_000,
                0 <= acc <= ACCEL_LIMIT,
        ;
        assert(-3_600_000_000_000_000_000_000 <= d * ax * acc * hx <= 3_600_000_000_000_000_000_000) by (nonlinear_arith)
            requires
                0 <= d <= MAX_DELTA_MS,
                -AXIS_UNIT <= ax <= AXIS_UNIT,
                0 <= acc <= ACCEL_LIMIT,
                -HEADING_UNIT <= hx <= HEADING_UNIT,
        ;
        assert(-3_600_000_000_000_000_000_000 <= d * ax * acc * hy <= 3_600_000_000_000_000_000_000) by (nonlinear_arith)
            requires
                0 <= d <= MAX_DELTA_MS,
                -AXIS_UNIT <= ax <= AXIS_UNIT,
                0 <= acc <= ACCEL_LIMIT,
                -HEADING_UNIT <= hy <= HEADING_UNIT,
        ;
        let tx = tdiv_wide(d * ax * acc * hx, 1_000_000_000);
        let ty = tdiv_wide(d * ax * acc * hy, 1_000_000_000);
        let v = Vector2 { x: (p.velocity.x as i128 + tx) as i64, y: (p.velocity.y as i128 + ty) as i64 };
        let velocity = clamp_velocity(v, p.max_velocity);
        let rt = input.rotate as i128;
        let tr = s.rotate as i128;
        assert(-3_600_000_000 <= rt * d <= 3_600_000_000) by (nonlinear_arith)
            requires
                0 <= d <= MAX_DELTA_MS,
                -AXIS_UNIT <= rt <= AXIS_UNIT,
        ;
        assert(-3_600_000_000_000_000_000 <= rt * d * tr <= 3_600_000_000_000_000_000) by (nonlinear_arith)
            requires
                0 <= d <= MAX_DELTA_MS,
                -AXIS_UNIT <= rt <= AXIS_UNIT,
                0 <= tr <= TURN_LIMIT,
        ;
        let spin = tdiv_wide(rt * d * tr, 1_000_000) as i64;
        let fired = s.reload_timer <= 0 && input.shoot;
        let reload: i64 = if s.reload_timer <= 0 {
            if input.shoot {
                s.time_to_reload
            } else {
                s.reload_timer
            }
        } else if s.reload_timer - delta > 0 {
            s.reload_timer - delta
        } else {
            0
        };
        let np = Physical { velocity, max_velocity: p.max_velocity, rotation: spin };
        let ns = Ship { acceleration: s.acceleration, rotate: s.rotate, reload_timer: reload, time_to_reload: s.time_to_reload };
        let nr = EntityRecord { physical: Some(np), ship: Some(ns), ..r };
        if fired {
            proof {
                lemma_component_bound(velocity, p.max_velocity as int);
            }
            let bv = Vector2 {
                x: velocity.x + input.heading.x * 150,
                y: velocity.y + input.heading.y * 150,
            };
            let b = EntityRecord {
                id: 0,
                transform: r.transform,
                physical: Some(
                    Physical { velocity: clamp_velocity(bv, BULLET_MAX_VELOCITY), max_velocity: BULLET_MAX_VELOCITY, rotation: 0 },
                ),
                ship: None,
                bullet: Some(Bullet),
                asteroid: None,
                explosion: None,
                collider: Some(Collider { typ: ColliderType::Bullet }),
                sprite: Some(SpriteRender { sprite_sheet: SpriteSheet::Bullet, sprite_number: 0 }),
            };
            (nr, Some(b))
        } else {
            (nr, None)
        }
    }

    /// Ship control over the store: every entity with ship state is
    /// controlled, and the bullets fired are queued in entity order.
    pub fn run(&self, world: &mut World, input: ShipInput, delta: i64)
        requires
            old(world).sound(),
            forall|i: int| 0 <= i < old(world).entities@.len() ==> settled(#[trigger] old(world).entities@[i]),
            input_ok(input),
            delta_ok(delta),
        ensures
            final(world).sound(),
            final(world).entities@.len() == old(world).entities@.len(),
            forall|i: int|
                0 <= i < old(world).entities@.len() ==> #[trigger] final(world).entities@[i] == controlled(
                    old(world).entities@[i],
                    input,
                    delta as int,
                ),
            forall|i: int| 0 <= i < final(world).entities@.len() ==> settled(#[trigger] final(world).entities@[i]),
            final(world).pending@ == old(world).pending@ + shots(old(world).entities@, input, delta as int),
            final(world).doomed@ == old(world).doomed@,
            final(world).next_id == old(world).next_id,
    {
        let ghost s0 = world.entities@;
        let ghost p0 = world.pending@;
        let n = world.entities.len();
        let mut i: usize = 0;
        while i < n
            invariant
                n == s0.len(),
                i <= n,
                input_ok(input),
                delta_ok(delta),
                world.entities@.len() == n,
                world.next_id == old(world).next_id,
                world.doomed@ == old(world).doomed@,
                ids_unique(s0),
                ids_below(s0, world.next_id),
                forall|j: int| 0 <= j < n ==> (#[trigger] world.entities@[j]).id == s0[j].id,
                forall|j: int| 0 <= j < i ==> #[trigger] world.entities@[j] == controlled(s0[j], input, delta as int),
                forall|j: int| i <= j < n ==> #[trigger] world.entities@[j] == s0[j],
                forall|j: int| 0 <= j < n ==> settled(#[trigger] world.entities@[j]),
                forall|j: int| 0 <= j < n ==> settled(#[trigger] s0[j]),
                world.pending@ == p0 + shots(s0.take(i as int), input, delta as int),
                forall|j: int| 0 <= j < world.pending@.len() ==> settled(#[trigger] world.pending@[j]),
            decreases n - i,
        {
            let r = world.entities[i];
            assert(s0.take(i + 1).drop_last() == s0.take(i as int));
            if r.physical.is_some() && r.ship.is_some() {
                let (nr, shot) = Self::control_ship(r, input, delta);
                world.entities.set(i, nr);
                match shot {
                    Some(b) => {
                        world.pending.push(b);
                    },
                    None => {},
                }
            }
            i = i + 1;
        }
        assert(s0.take(n as int) == s0);
        assert(ids_unique(world.entities@)) by {
            assert forall|a: int, b: int| 0 <= a < b < n implies world.entities@[a].id != world.entities@[b].id by {
                assert(world.entities@[a].id == s0[a].id);
                assert(world.entities@[b].id == s0[b].id);
            }
        }
    }
}

} // verus!
