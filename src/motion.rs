//! Physics integration and the arena boundary.

use vstd::prelude::*;
use crate::fixed::{tdiv, tdiv_wide, lemma_component_bound};
use crate::components::{
    EntityRecord, Transform, settled, entity_ok, in_arena, is_bullet, ARENA_WIDTH, ARENA_HEIGHT, WRAP_INSET,
    MAX_DELTA_MS, TAU_URAD, SPIN_LIMIT,
};
use crate::world::{World, ids_unique, ids_below, strays_doomed};
use crate::control::delta_ok;

verus! {

/// An entity's transform advanced by `velocity * delta` and
/// `rotation * delta`, the angle kept within one turn.
pub open spec fn moved(r: EntityRecord, delta: int) -> EntityRecord {
    match r.physical {
        Some(p) => EntityRecord {
            transform: Transform {
                x: (r.transform.x + tdiv(p.velocity.x * delta, 1000)) as i64,
                y: (r.transform.y + tdiv(p.velocity.y * delta, 1000)) as i64,
                rotation: ((r.transform.rotation + tdiv(p.rotation * delta, 1000)) % (TAU_URAD as int)) as i64,
            },
            ..r
        },
        None => r,
    }
}

/// A coordinate outside `[0, limit]` moves to the opposite edge, inset by
/// `WRAP_INSET`; one inside stays.
pub open spec fn wrap_spec(c: int, limit: int) -> int {
    if c < 0 {
        limit - WRAP_INSET
    } else if c > limit {
        WRAP_INSET as int
    } else {
        c
    }
}

/// A moving non-bullet entity wrapped back into the arena.
pub open spec fn wrapped(r: EntityRecord) -> EntityRecord {
    if r.physical is Some && !is_bullet(r) {
        EntityRecord {
            transform: Transform {
                x: wrap_spec(r.transform.x as int, ARENA_WIDTH as int) as i64,
                y: wrap_spec(r.transform.y as int, ARENA_HEIGHT as int) as i64,
                rotation: r.transform.rotation,
            },
            ..r
        }
    } else {
        r
    }
}

/// Ids of the bullets outside the arena, in entity order.
pub open spec fn strays(s: Seq<EntityRecord>) -> Seq<u64>
    decreases s.len(),
{
    if s.len() == 0 {
        seq![]
    } else {
        let rest = strays(s.drop_last());
        if is_bullet(s.last()) && !in_arena(s.last().transform) {
            rest.push(s.last().id)
        } else {
            rest
        }
    }
}

/// Wraps one coordinate into `[0, limit]`.
pub fn wrap_coordinate(c: i64, limit: i64) -> (r: i64)
    requires
        WRAP_INSET <= limit,
    ensures
        r == wrap_spec(c as int, limit as int),
        0 <= r <= limit,
{
    if c < 0 {
        limit - WRAP_INSET
    } else if c > limit {
        WRAP_INSET
    } else {
        c
    }
}

/// Advances transforms from velocity and angular rate.
pub struct PhysicalSystem;

impl PhysicalSystem {
    /// Integration of one entity.
    pub fn integrate(r: EntityRecord, delta: i64) -> (res: EntityRecord)
        requires
            settled(r),
            delta_ok(delta),
        ensures
            res == moved(r, delta as int),
            entity_ok(res),
    {
        match r.physical {
            Some(p) => {
                proof {
                    lemma_component_bound(p.velocity, p.max_velocity as int);
                }
                let d = delta as i128;
                assert(-3_600_000_000_000_000 <= p.velocity.x * d <= 3_600_000_000_000_000) by (nonlinear_arith)
                    requires
                        -1_000_000_000 <= p.velocity.x <= 1_000_000_000,
                        0 <= d <= MAX_DELTA_MS,
                ;
                assert(-3_600_000_000_000_000 <= p.velocity.y * d <= 3_600_000_000_000_000) by (nonlinear_arith)
                    requires
                        -1_000_000_000 <= p.velocity.y <= 1_000_000_000,
                        0 <= d <= MAX_DELTA_MS,
                ;
                assert(-14_400_000_000_000_000_000 <= p.rotation * d <= 14_400_000_000_000_000_000) by (nonlinear_arith)
                    requires
                        -SPIN_LIMIT <= p.rotation <= SPIN_LIMIT,
                        0 <= d <= MAX_DELTA_MS,
                ;
                let dx = tdiv_wide(p.velocity.x as i128 * d, 1000) as i64;
                let dy = tdiv_wide(p.velocity.y as i128 * d, 1000) as i64;
                let da = tdiv_wide(p.rotation as i128 * d, 1000) as i64;
                let a = r.transform.rotation + da;
                let rotation = match a.checked_rem_euclid(TAU_URAD) {
                    Some(v) => v,
                    None => 0,
                };
                EntityRecord {
                    transform: Transform { x: r.transform.x + dx, y: r.transform.y + dy, rotation },
                    ..r
                }
            },
            None => r,
        }
    }

    /// Integration over the store.
    pub fn run(&self, world: &mut World, delta: i64)
        requires
            old(world).sound(),
            forall|i: int| 0 <= i < old(world).entities@.len() ==> settled(#[trigger] old(world).entities@[i]),
            delta_ok(delta),
        ensures
            final(world).sound(),
            final(world).entities@.len() == old(world).entities@.len(),
            forall|i: int|
                0 <= i < old(world).entities@.len() ==> #[trigger] final(world).entities@[i] == moved(
                    old(world).entities@[i],
                    delta as int,
                ),
            final(world).pending@ == old(world).pending@,
            final(world).doomed@ == old(world).doomed@,
            final(world).next_id == old(world).next_id,
    {
        let ghost s0 = world.entities@;
        let n = world.entities.len();
        let mut i: usize = 0;
        while i < n
            invariant
                n == s0.len(),
                i <= n,
                delta_ok(delta),
                world.entities@.len() == n,
                world.next_id == old(world).next_id,
                world.doomed@ == old(world).doomed@,
                world.pending@ == old(world).pending@,
                ids_unique(s0),
                ids_below(s0, world.next_id),
                forall|j: int| 0 <= j < n ==> (#[trigger] world.entities@[j]).id == s0[j].id,
                forall|j: int| 0 <= j < i ==> #[trigger] world.entities@[j] == moved(s0[j], delta as int),
                forall|j: int| i <= j < n ==> #[trigger] world.entities@[j] == s0[j],
                forall|j: int| 0 <= j < i ==> entity_ok(#[trigger] world.entities@[j]),
                forall|j: int| 0 <= j < n ==> settled(#[trigger] s0[j]),
                forall|j: int| 0 <= j < world.pending@.len() ==> settled(#[trigger] world.pending@[j]),
            decreases n - i,
        {
            let r = world.entities[i];
            let nr = Self::integrate(r, delta);
            world.entities.set(i, nr);
            i = i + 1;
        }
        assert(ids_unique(world.entities@)) by {
            assert forall|a: int, b: int| 0 <= a < b < n implies world.entities@[a].id != world.entities@[b].id by {
                assert(world.entities@[a].id == s0[a].id);
                assert(world.entities@[b].id == s0[b].id);
            }
        }
    }
}

/// Wraps moving non-bullet entities at the arena edges and queues
/// off-arena bullets for deletion.
pub struct BoundarySystem;

impl BoundarySystem {
    pub fn run(&self, world: &mut World)
        requires
            old(world).sound(),
        ensures
            final(world).sound(),
            final(world).entities@.len() == old(world).entities@.len(),
            forall|i: int|
                0 <= i < old(world).entities@.len() ==> #[trigger] final(world).entities@[i] == wrapped(
                    old(world).entities@[i],
                ),
            final(world).doomed@ == old(world).doomed@ + strays(old(world).entities@),
            strays_doomed(final(world).entities@, final(world).doomed@),
            final(world).pending@ == old(world).pending@,
            final(world).next_id == old(world).next_id,
    {
        let ghost s0 = world.entities@;
        let ghost d0 = world.doomed@;
        let n = world.entities.len();
        let mut i: usize = 0;
        while i < n
            invariant
                n == s0.len(),
                i <= n,
                world.entities@.len() == n,
                world.next_id == old(world).next_id,
                world.pending@ == old(world).pending@,
                world.doomed@ == d0 + strays(s0.take(i as int)),
                ids_unique(s0),
                ids_below(s0, world.next_id),
                forall|j: int| 0 <= j < n ==> (#[trigger] world.entities@[j]).id == s0[j].id,
                forall|j: int| 0 <= j < i ==> #[trigger] world.entities@[j] == wrapped(s0[j]),
                forall|j: int| i <= j < n ==> #[trigger] world.entities@[j] == s0[j],
                forall|j: int| 0 <= j < n ==> entity_ok(#[trigger] world.entities@[j]),
                forall|j: int| 0 <= j < world.pending@.len() ==> settled(#[trigger] world.pending@[j]),
                strays_doomed(world.entities@.take(i as int), world.doomed@),
            decreases n - i,
        {
            let r = world.entities[i];
            assert(s0.take(i + 1).drop_last() == s0.take(i as int));
            let ghost before = world.entities@;
            let ghost dbefore = world.doomed@;
            if r.bullet.is_some() {
                let x = r.transform.x;
                let y = r.transform.y;
                if x < 0 || y < 0 || x > ARENA_WIDTH || y > ARENA_HEIGHT {
                    world.delete(r.id);
                }
            } else if r.physical.is_some() {
                let x = wrap_coordinate(r.transform.x, ARENA_WIDTH);
                let y = wrap_coordinate(r.transform.y, ARENA_HEIGHT);
                let nr = EntityRecord { transform: Transform { x, y, rotation: r.transform.rotation }, ..r };
                world.entities.set(i, nr);
            }
            assert forall|j: int|
                #![trigger world.entities@.take(i + 1)[j]]
                0 <= j < i + 1 && (world.entities@.take(i + 1)[j].physical is Some || world.entities@.take(
                    i + 1,
                )[j].bullet is Some) && !in_arena(
                    world.entities@.take(i + 1)[j].transform,
                ) implies world.doomed@.contains(world.entities@.take(i + 1)[j].id) by {
                if j < i {
                    assert(world.entities@.take(i + 1)[j] == before.take(i as int)[j]);
                    assert(dbefore.contains(before.take(i as int)[j].id));
                    let k = choose|k: int| 0 <= k < dbefore.len() && dbefore[k] == before.take(i as int)[j].id;
                    assert(world.doomed@[k] == dbefore[k]);
                } else {
                    assert(world.doomed@.last() == r.id);
                }
            }
            i = i + 1;
        }
        assert(s0.take(n as int) == s0);
        assert(world.entities@.take(n as int) == world.entities@);
        assert(ids_unique(world.entities@)) by {
            assert forall|a: int, b: int| 0 <= a < b < n implies world.entities@[a].id != world.entities@[b].id by {
                assert(world.entities@[a].id == s0[a].id);
                assert(world.entities@[b].id == s0[b].id);
            }
        }
    }
}

} // verus!
