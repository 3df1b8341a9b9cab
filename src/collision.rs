//! Collision detection between tagged entities and classification of the
//! pairs found.

use vstd::prelude::*;
use crate::components::{EntityRecord, ColliderType, POS_LIMIT};

verus! {

/// Interaction radius of every collidable entity (5 units).
pub const COLLISION_RADIUS: i64 = 5000;

/// A collidable entity as the detector sees it: tag, id and position.
#[derive(Clone, Copy, Debug, PartialEq, Eq, Structural)]
pub struct ColliderEntity {
    pub typ: ColliderType,
    pub entity: u64,
    pub x: i64,
    pub y: i64,
}

/// An entity destroyed by a collision.
#[derive(Clone, Copy, Debug, PartialEq, Eq, Structural)]
pub struct CollisionEvent {
    pub entity: u64,
}

impl CollisionEvent {
    pub fn new(entity: u64) -> (r: CollisionEvent)
        ensures
            r.entity == entity,
    {
        CollisionEvent { entity }
    }
}

pub open spec fn position_ok(c: ColliderEntity) -> bool {
    -POS_LIMIT <= c.x <= POS_LIMIT && -POS_LIMIT <= c.y <= POS_LIMIT
}

/// Two circles of radius `COLLISION_RADIUS` overlap (touching counts).
pub open spec fn overlaps(a: ColliderEntity, b: ColliderEntity) -> bool {
    (a.x - b.x) * (a.x - b.x) + (a.y - b.y) * (a.y - b.y) <= (2 * COLLISION_RADIUS) * (2 * COLLISION_RADIUS)
}

/// Only entities with different tags interfere.
pub open spec fn allowed(a: ColliderEntity, b: ColliderEntity) -> bool {
    a.typ != b.typ
}

pub open spec fn destroys(a: ColliderEntity, b: ColliderEntity) -> bool {
    (a.typ == ColliderType::Asteroid && b.typ == ColliderType::Bullet) || (a.typ == ColliderType::Bullet
        && b.typ == ColliderType::Asteroid)
}

pub open spec fn hits_ship(a: ColliderEntity, b: ColliderEntity) -> bool {
    (a.typ == ColliderType::Asteroid && b.typ == ColliderType::Ship) || (a.typ == ColliderType::Ship
        && b.typ == ColliderType::Asteroid)
}

/// Destroy-events of one interfering pair: both ids for a bullet and an
/// asteroid, none otherwise.
pub open spec fn started_events(a: ColliderEntity, b: ColliderEntity) -> Seq<CollisionEvent> {
    if destroys(a, b) {
        seq![CollisionEvent { entity: a.entity }, CollisionEvent { entity: b.entity }]
    } else {
        seq![]
    }
}

pub open spec fn pair_events(a: ColliderEntity, b: ColliderEntity) -> Seq<CollisionEvent> {
    if overlaps(a, b) && allowed(a, b) {
        started_events(a, b)
    } else {
        seq![]
    }
}

/// Events of the pairs `(i, k)` with `i < k < j`, in order of `k`.
pub open spec fn row_events(s: Seq<ColliderEntity>, i: int, j: int) -> Seq<CollisionEvent>
    decreases j - i,
{
    if j <= i + 1 {
        seq![]
    } else {
        row_events(s, i, j - 1) + pair_events(s[i], s[j - 1])
    }
}

/// Events of all pairs whose first member is before `i`, pairs taken in
/// lexicographic order.
pub open spec fn events_upto(s: Seq<ColliderEntity>, i: int) -> Seq<CollisionEvent>
    decreases i,
{
    if i <= 0 {
        seq![]
    } else {
        events_upto(s, i - 1) + row_events(s, i - 1, s.len() as int)
    }
}

pub open spec fn collision_events(s: Seq<ColliderEntity>) -> Seq<CollisionEvent> {
    events_upto(s, s.len() as int)
}

/// Some asteroid overlaps some ship.
pub open spec fn ship_hit_spec(s: Seq<ColliderEntity>) -> bool {
    exists|a: int, b: int|
        0 <= a < b < s.len() && overlaps(#[trigger] s[a], #[trigger] s[b]) && hits_ship(s[a], s[b])
}

/// Collects the outcome of the interfering pairs.
pub struct CollisionHandler {
    pub collide_entity: Vec<CollisionEvent>,
    pub ship_hit: bool,
}

impl CollisionHandler {
    pub fn new() -> (r: CollisionHandler)
        ensures
            r.collide_entity@.len() == 0,
            !r.ship_hit,
    {
        CollisionHandler { collide_entity: Vec::new(), ship_hit: false }
    }

    /// Entities with the same tag never interfere.
    pub fn is_interference_allowed(&self, a: &ColliderEntity, b: &ColliderEntity) -> (r: bool)
        ensures
            r == allowed(*a, *b),
    {
        a.typ != b.typ
    }

    /// Records an interfering pair: a bullet and an asteroid are both
    /// destroyed; an asteroid and the ship raise the ship-hit signal.
    pub fn interference_started(&mut self, a: &ColliderEntity, b: &ColliderEntity)
        ensures
            final(self).collide_entity@ == old(self).collide_entity@ + started_events(*a, *b),
            final(self).ship_hit == (old(self).ship_hit || hits_ship(*a, *b)),
    {
        match (a.typ, b.typ) {
            (ColliderType::Asteroid, ColliderType::Bullet) | (ColliderType::Bullet, ColliderType::Asteroid) => {
                self.collide_entity.push(CollisionEvent::new(a.entity));
                self.collide_entity.push(CollisionEvent::new(b.entity));
            },
            (ColliderType::Asteroid, ColliderType::Ship) | (ColliderType::Ship, ColliderType::Asteroid) => {
                self.ship_hit = true;
            },
            (_, _) => {},
        }
        assert(started_events(*a, *b) == (if destroys(*a, *b) {
            seq![CollisionEvent { entity: a.entity }, CollisionEvent { entity: b.entity }]
        } else {
            seq![]
        }));
    }
}

/// Whether two colliders overlap.
pub fn overlapping(a: &ColliderEntity, b: &ColliderEntity) -> (r: bool)
    requires
        position_ok(*a),
        position_ok(*b),
    ensures
        r == overlaps(*a, *b),
{
    let dx = a.x as i128 - b.x as i128;
    let dy = a.y as i128 - b.y as i128;
    assert(0 <= dx * dx <= 400_000_000_000_000_000_000_000_000) by (nonlinear_arith)
        requires
            -20_000_000_000_000 <= dx <= 20_000_000_000_000,
    ;
    assert(0 <= dy * dy <= 400_000_000_000_000_000_000_000_000) by (nonlinear_arith)
        requires
            -20_000_000_000_000 <= dy <= 20_000_000_000_000,
    ;
    let reach: i128 = 2 * COLLISION_RADIUS as i128;
    assert(reach == 10_000);
    dx * dx + dy * dy <= reach * reach
}

/// Detects overlaps among all colliders and classifies them.
pub struct CollisionSystem;

impl CollisionSystem {
    /// Tests every pair once, in lexicographic order, and hands each
    /// interfering pair to a fresh handler.
    pub fn run(&self, colliders: &Vec<ColliderEntity>) -> (h: CollisionHandler)
        requires
            forall|i: int| 0 <= i < colliders@.len() ==> position_ok(#[trigger] colliders@[i]),
        ensures
            h.collide_entity@ == collision_events(colliders@),
            h.ship_hit == ship_hit_spec(colliders@),
    {
        let ghost s = colliders@;
        let mut h = CollisionHandler::new();
        let n = colliders.len();
        let mut i: usize = 0;
        while i < n
            invariant
                s == colliders@,
                n == s.len(),
                i <= n,
                forall|k: int| 0 <= k < n ==> position_ok(#[trigger] s[k]),
                h.collide_entity@ == events_upto(s, i as int),
                h.ship_hit == (exists|a: int, b: int|
                    0 <= a < i && a < b < n && overlaps(#[trigger] s[a], #[trigger] s[b]) && hits_ship(s[a], s[b])),
            decreases n - i,
        {
            let ghost base = h.collide_entity@;
            let ghost hit0 = h.ship_hit;
            let mut j: usize = i + 1;
            while j < n
                invariant
                    s == colliders@,
                    n == s.len(),
                    i < n,
                    i + 1 <= j <= n,
                    forall|k: int| 0 <= k < n ==> position_ok(#[trigger] s[k]),
                    h.collide_entity@ == base + row_events(s, i as int, j as int),
                    h.ship_hit == (hit0 || exists|b: int|
                        i < b < j && overlaps(s[i as int], #[trigger] s[b]) && hits_ship(s[i as int], s[b])),
                decreases n - j,
            {
                let a = &colliders[i];
                let b = &colliders[j];
                let ghost before = h.collide_entity@;
                if overlapping(a, b) && h.is_interference_allowed(a, b) {
                    h.interference_started(a, b);
                }
                assert(h.collide_entity@ == base + row_events(s, i as int, j + 1)) by {
                    assert(row_events(s, i as int, j + 1) == row_events(s, i as int, j as int) + pair_events(
                        s[i as int],
                        s[j as int],
                    ));
                }
                proof {
                    if overlaps(s[i as int], s[j as int]) && hits_ship(s[i as int], s[j as int]) {
                        assert(allowed(s[i as int], s[j as int]));
                    }
                }
                j = j + 1;
            }
            assert(events_upto(s, i + 1) == events_upto(s, i as int) + row_events(s, i as int, n as int));
            assert(h.ship_hit == (exists|a: int, b: int|
                0 <= a < i + 1 && a < b < n && overlaps(#[trigger] s[a], #[trigger] s[b]) && hits_ship(s[a], s[b]))) by {
                if h.ship_hit && !hit0 {
                    let b = choose|b: int|
                        i < b < n && overlaps(s[i as int], #[trigger] s[b]) && hits_ship(s[i as int], s[b]);
                    assert(overlaps(s[i as int], s[b]));
                }
                if exists|a: int, b: int|
                    0 <= a < i + 1 && a < b < n && overlaps(#[trigger] s[a], #[trigger] s[b]) && hits_ship(s[a], s[b]) {
                    let (a, b) = choose|a: int, b: int|
                        0 <= a < i + 1 && a < b < n && overlaps(#[trigger] s[a], #[trigger] s[b]) && hits_ship(s[a], s[b]);
                    if a < i {
                        assert(hit0);
                    } else {
                        assert(overlaps(s[i as int], s[b]));
                    }
                }
            }
            i = i + 1;
        }
        h
    }
}

/// The colliders of the store, in entity order.
pub open spec fn colliders_of(s: Seq<EntityRecord>) -> Seq<ColliderEntity>
    decreases s.len(),
{
    if s.len() == 0 {
        seq![]
    } else {
        let rest = colliders_of(s.drop_last());
        match s.last().collider {
            Some(c) => rest.push(
                ColliderEntity { typ: c.typ, entity: s.last().id, x: s.last().transform.x, y: s.last().transform.y },
            ),
            None => rest,
        }
    }
}

/// Collects the colliders of the given entities.
pub fn collect_colliders(entities: &Vec<EntityRecord>) -> (r: Vec<ColliderEntity>)
    requires
        forall|i: int|
            0 <= i < entities@.len() ==> -POS_LIMIT <= (#[trigger] entities@[i]).transform.x <= POS_LIMIT
                && -POS_LIMIT <= entities@[i].transform.y <= POS_LIMIT,
    ensures
        r@ == colliders_of(entities@),
        forall|i: int| 0 <= i < r@.len() ==> position_ok(#[trigger] r@[i]),
{
    let ghost s = entities@;
    let mut out: Vec<ColliderEntity> = Vec::new();
    let mut i: usize = 0;
    while i < entities.len()
        invariant
            s == entities@,
            i <= s.len(),
            forall|k: int|
                0 <= k < s.len() ==> -POS_LIMIT <= (#[trigger] s[k]).transform.x <= POS_LIMIT && -POS_LIMIT
                    <= s[k].transform.y <= POS_LIMIT,
            out@ == colliders_of(s.take(i as int)),
            forall|k: int| 0 <= k < out@.len() ==> position_ok(#[trigger] out@[k]),
        decreases s.len() - i,
    {
        let r = entities[i];
        assert(s.take(i + 1).drop_last() == s.take(i as int));
        match r.collider {
            Some(c) => {
                out.push(ColliderEntity { typ: c.typ, entity: r.id, x: r.transform.x, y: r.transform.y });
            },
            None => {},
        }
        i = i + 1;
    }
    assert(s.take(s.len() as int) == s);
    out
}

} // verus!
