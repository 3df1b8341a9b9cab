//! Consequences of collisions: deletion, scoring, and explosion animation.

use vstd::prelude::*;
use crate::components::{
    EntityRecord, Transform, Explosion, Collider, ColliderType, SpriteRender, SpriteSheet, settled, entity_ok,
    EXPLOSION_FRAME_TIME, EXPLOSION_FRAME_LIMIT, MAX_DELTA_MS,
};
use crate::world::{World, find, ids_unique, ids_below};
use crate::collision::CollisionEvent;
use crate::control::delta_ok;

verus! {

/// The player's score.
#[derive(Clone, Copy, Debug, PartialEq, Eq, Structural)]
pub struct ScoreRes {
    pub score: u64,
}

impl ScoreRes {
    /// A session starts at zero.
    pub fn new() -> (r: ScoreRes)
        ensures
            r.score == 0,
    {
        ScoreRes { score: 0 }
    }

    /// The score as displayed: its decimal digits.
    pub fn text(&self) -> (r: String)
        ensures
            r@ == decimal(self.score as nat),
    {
        decimal_string(self.score)
    }
}

/// The decimal digit for `d < 10`.
pub open spec fn digit_char(d: nat) -> char {
    seq!['0', '1', '2', '3', '4', '5', '6', '7', '8', '9'][d as int]
}

/// The decimal representation of `n`, without leading zeros.
pub open spec fn decimal(n: nat) -> Seq<char>
    decreases n,
{
    if n < 10 {
        seq![digit_char(n)]
    } else {
        decimal(n / 10).push(digit_char(n % 10))
    }
}

/// Relies on `ToString` for `u64` (through its `Display`), which writes the
/// number in decimal without leading zeros.
#[verifier::external_body]
fn decimal_string(n: u64) -> (r: String)
    ensures
        r@ == decimal(n as nat),
{
    n.to_string()
}

/// The event's entity is live and tagged as a bullet.
pub open spec fn is_bullet_hit(s: Seq<EntityRecord>, e: CollisionEvent) -> bool {
    find(s, e.entity) matches Some(r) && r.collider == Some(Collider { typ: ColliderType::Bullet })
}

/// A fresh explosion at the given transform.
pub open spec fn explosion_at(t: Transform) -> EntityRecord {
    EntityRecord {
        id: 0,
        transform: t,
        physical: None,
        ship: None,
        bullet: None,
        asteroid: None,
        explosion: Some(Explosion { time_to_update: EXPLOSION_FRAME_TIME, frame_count: 0 }),
        collider: None,
        sprite: Some(SpriteRender { sprite_sheet: SpriteSheet::Explosion, sprite_number: 0 }),
    }
}

/// The explosions queued for the events, one per bullet hit, in order.
pub open spec fn explosions_for(s: Seq<EntityRecord>, ev: Seq<CollisionEvent>) -> Seq<EntityRecord>
    decreases ev.len(),
{
    if ev.len() == 0 {
        seq![]
    } else {
        let rest = explosions_for(s, ev.drop_last());
        if is_bullet_hit(s, ev.last()) {
            rest.push(explosion_at(find(s, ev.last().entity)->Some_0.transform))
        } else {
            rest
        }
    }
}

/// The number of bullet hits among the events.
pub open spec fn bullet_hits(s: Seq<EntityRecord>, ev: Seq<CollisionEvent>) -> nat
    decreases ev.len(),
{
    if ev.len() == 0 {
        0
    } else {
        bullet_hits(s, ev.drop_last()) + if is_bullet_hit(s, ev.last()) {
            1nat
        } else {
            0nat
        }
    }
}

pub open spec fn event_ids(ev: Seq<CollisionEvent>) -> Seq<u64> {
    Seq::new(ev.len(), |i: int| ev[i].entity)
}

/// A score raised by `n`, held at the largest value.
pub open spec fn raised(score: u64, n: nat) -> u64 {
    if score + n <= u64::MAX {
        (score + n) as u64
    } else {
        u64::MAX
    }
}

/// Consumes destroy-events: each bullet hit queues an explosion and scores
/// one point; every event's entity is queued for deletion.
pub struct DeletionSystem;

impl DeletionSystem {
    pub fn run(&self, world: &mut World, events: &Vec<CollisionEvent>, score: &mut ScoreRes)
        requires
            old(world).sound(),
        ensures
            final(world).sound(),
            final(world).entities@ == old(world).entities@,
            final(world).next_id == old(world).next_id,
            final(world).doomed@ == old(world).doomed@ + event_ids(events@),
            final(world).pending@ == old(world).pending@ + explosions_for(old(world).entities@, events@),
            final(score).score == raised(old(score).score, bullet_hits(old(world).entities@, events@)),
    {
        let ghost s = world.entities@;
        let ghost d0 = world.doomed@;
        let ghost p0 = world.pending@;
        let ghost sc0 = score.score;
        let mut i: usize = 0;
        while i < events.len()
            invariant
                s == world.entities@,
                i <= events@.len(),
                world.sound(),
                world.next_id == old(world).next_id,
                world.doomed@ == d0 + event_ids(events@.take(i as int)),
                world.pending@ == p0 + explosions_for(s, events@.take(i as int)),
                score.score == raised(sc0, bullet_hits(s, events@.take(i as int))),
            decreases events@.len() - i,
        {
            let e = events[i];
            assert(events@.take(i + 1).drop_last() == events@.take(i as int));
            assert(events@.take(i + 1).last() == e);
            match world.get(e.entity) {
                Some(r) => {
                    if r.collider == Some(Collider { typ: ColliderType::Bullet }) {
                        proof {
                            let k = choose|k: int| 0 <= k < s.len() && s[k].id == e.entity;
                            assert(entity_ok(s[k]));
                        }
                        let x = EntityRecord {
                            id: 0,
                            transform: r.transform,
                            physical: None,
                            ship: None,
                            bullet: None,
                            asteroid: None,
                            explosion: Some(Explosion::new()),
                            collider: None,
                            sprite: Some(SpriteRender { sprite_sheet: SpriteSheet::Explosion, sprite_number: 0 }),
                        };
                        world.create(x);
                        if score.score < u64::MAX {
                            score.score = score.score + 1;
                        }
                    }
                },
                None => {},
            }
            world.delete(e.entity);
            assert(event_ids(events@.take(i + 1)) == event_ids(events@.take(i as int)).push(e.entity));
            i = i + 1;
        }
        assert(events@.take(events@.len() as int) == events@);
    }
}

/// An explosion's animation state after one tick: `None` once it is removed.
pub open spec fn explosion_step(e: Explosion, delta: int) -> Option<Explosion> {
    if e.time_to_update <= 0 {
        if e.frame_count == EXPLOSION_FRAME_LIMIT {
            None
        } else {
            Some(Explosion { time_to_update: EXPLOSION_FRAME_TIME, frame_count: (e.frame_count + 1) as i32 })
        }
    } else {
        Some(Explosion { time_to_update: (e.time_to_update - delta) as i64, ..e })
    }
}

pub open spec fn animates(r: EntityRecord) -> bool {
    r.explosion is Some && r.sprite is Some
}

/// The entity after one tick of animation; a frame advance also advances
/// its sprite. A finished explosion is left as it is (and deleted).
pub open spec fn animated(r: EntityRecord, delta: int) -> EntityRecord {
    if animates(r) {
        match explosion_step(r.explosion->Some_0, delta) {
            Some(e) => {
                let sp = r.sprite->Some_0;
                let n = if e.frame_count != r.explosion->Some_0.frame_count {
                    (sp.sprite_number + 1) as usize
                } else {
                    sp.sprite_number
                };
                EntityRecord { explosion: Some(e), sprite: Some(SpriteRender { sprite_number: n, ..sp }), ..r }
            },
            None => r,
        }
    } else {
        r
    }
}

/// Ids of the explosions that finish this tick, in entity order.
pub open spec fn finished(s: Seq<EntityRecord>, delta: int) -> Seq<u64>
    decreases s.len(),
{
    if s.len() == 0 {
        seq![]
    } else {
        let rest = finished(s.drop_last(), delta);
        if animates(s.last()) && explosion_step(s.last().explosion->Some_0, delta) is None {
            rest.push(s.last().id)
        } else {
            rest
        }
    }
}

/// Advances explosion frames and removes finished explosions.
pub struct ExplosionSystem;

impl ExplosionSystem {
    /// One tick of animation for one explosion.
    pub fn step(e: Explosion, delta: i64) -> (r: Option<Explosion>)
        requires
            e.time_to_update >= -MAX_DELTA_MS,
            e.frame_count <= EXPLOSION_FRAME_LIMIT,
            delta_ok(delta),
        ensures
            r == explosion_step(e, delta as int),
    {
        if e.time_to_update <= 0 {
            if e.frame_count == EXPLOSION_FRAME_LIMIT {
                None
            } else {
                Some(Explosion { time_to_update: EXPLOSION_FRAME_TIME, frame_count: e.frame_count + 1 })
            }
        } else {
            Some(Explosion { time_to_update: e.time_to_update - delta, frame_count: e.frame_count })
        }
    }

    pub fn run(&self, world: &mut World, delta: i64)
        requires
            old(world).sound(),
            delta_ok(delta),
        ensures
            final(world).sound(),
            final(world).entities@.len() == old(world).entities@.len(),
            forall|i: int|
                0 <= i < old(world).entities@.len() ==> #[trigger] final(world).entities@[i] == animated(
                    old(world).entities@[i],
                    delta as int,
                ),
            final(world).doomed@ == old(world).doomed@ + finished(old(world).entities@, delta as int),
            final(world).pending@ == old(world).pending@,
            final(world).next_id == old(world).next_id,
    {
        let ghost s0 = world.entities@;
        let ghost d0 = world.doomed@;
        let n = world.entities.len();
        let mut i: usize = 0;
        while i < n
            invariant
                n == s0.len(),
                i <= n,
                delta_ok(delta),
                world.entities@.len() == n,
                world.next_id == old(world).next_id,
                world.pending@ == old(world).pending@,
                world.doomed@ == d0 + finished(s0.take(i as int), delta as int),
                ids_unique(s0),
                ids_below(s0, world.next_id),
                forall|j: int| 0 <= j < n ==> (#[trigger] world.entities@[j]).id == s0[j].id,
                forall|j: int| 0 <= j < i ==> #[trigger] world.entities@[j] == animated(s0[j], delta as int),
                forall|j: int| i <= j < n ==> #[trigger] world.entities@[j] == s0[j],
                forall|j: int| 0 <= j < n ==> entity_ok(#[trigger] s0[j]),
                forall|j: int| 0 <= j < n ==> entity_ok(#[trigger] world.entities@[j]),
                forall|j: int| 0 <= j < world.pending@.len() ==> settled(#[trigger] world.pending@[j]),
            decreases n - i,
        {
            let r = world.entities[i];
            assert(s0.take(i + 1).drop_last() == s0.take(i as int));
            match (r.explosion, r.sprite) {
                (Some(e), Some(sp)) => {
                    match Self::step(e, delta) {
                        Some(ne) => {
                            let num = if ne.frame_count != e.frame_count {
                                sp.sprite_number + 1
                            } else {
                                sp.sprite_number
                            };
                            let nr = EntityRecord {
                                explosion: Some(ne),
                                sprite: Some(SpriteRender { sprite_sheet: sp.sprite_sheet, sprite_number: num }),
                                ..r
                            };
                            world.entities.set(i, nr);
                        },
                        None => {
                            world.delete(r.id);
                        },
                    }
                },
                _ => {},
            }
            i = i + 1;
        }
        assert(s0.take(n as int) == s0);
        assert(ids_unique(world.entities@)) by {
            assert forall|a: int, b: int| 0 <= a < b < n implies world.entities@[a].id != world.entities@[b].id by {
                assert(world.entities@[a].id == s0[a].id);
                assert(world.entities@[b].id == s0[b].id);
            }
        }
    }
}

} // verus!
