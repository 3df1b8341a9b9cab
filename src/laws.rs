//! Properties of the simulation that span several ticks or several stages.

use vstd::prelude::*;
use crate::fixed::Vector2;
use crate::components::{
    EntityRecord, Ship, Explosion, ship_ok, in_arena, settled, WRAP_INSET, MAX_DELTA_MS, EXPLOSION_FRAME_TIME, EXPLOSION_FRAME_LIMIT,
};
use crate::control::{ShipInput, fires, reload_after};
use crate::motion::{wrap_spec, wrapped, strays};
use crate::world::World;
use crate::effects::{explosion_step, bullet_hits, is_bullet_hit, raised};
use crate::collision::CollisionEvent;

verus! {

pub open spec fn total(d: Seq<int>) -> int
    decreases d.len(),
{
    if d.len() == 0 {
        0
    } else {
        total(d.drop_last()) + d.last()
    }
}

pub open spec fn all_valid_deltas(d: Seq<int>) -> bool {
    forall|i: int| 0 <= i < d.len() ==> 0 <= #[trigger] d[i] <= MAX_DELTA_MS
}

/// Fire held down, no steering.
pub open spec fn fire_held() -> ShipInput {
    ShipInput { accelerate: 0, rotate: 0, shoot: true, heading: Vector2 { x: 0, y: 0 } }
}

/// The ship's reload state after ticks of the given lengths with fire
/// held, and how many of those ticks fired.
pub open spec fn reload_run(s: Ship, d: Seq<int>) -> (Ship, nat)
    decreases d.len(),
{
    if d.len() == 0 {
        (s, 0)
    } else {
        let (s1, n) = reload_run(s, d.drop_last());
        (
            Ship { reload_timer: reload_after(s1, fire_held(), d.last()), ..s1 },
            n + if fires(s1, fire_held()) {
                1nat
            } else {
                0nat
            },
        )
    }
}

proof fn lemma_total_nonneg(d: Seq<int>)
    requires
        all_valid_deltas(d),
    ensures
        total(d) >= 0,
    decreases d.len(),
{
    if d.len() > 0 {
        lemma_total_nonneg(d.drop_last());
    }
}

proof fn lemma_skip_drop(d: Seq<int>)
    requires
        d.len() >= 2,
    ensures
        d.skip(1).drop_last() == d.drop_last().skip(1),
        d.skip(1).last() == d.last(),
{
    assert(d.skip(1).drop_last() =~= d.drop_last().skip(1));
}

/// While only the first shot has been fired, the countdown is the reload
/// interval less the time since, floored at zero.
proof fn lemma_countdown_after_shot(s: Ship, d: Seq<int>)
    requires
        ship_ok(s),
        s.reload_timer <= 0,
        d.len() >= 1,
        all_valid_deltas(d),
        total(d.skip(1)) <= 3_600_000,
    ensures
        reload_run(s, d).1 >= 1,
        reload_run(s, d).0.time_to_reload == s.time_to_reload,
        reload_run(s, d).1 >= 2 || reload_run(s, d).0.reload_timer == (if s.time_to_reload - total(d.skip(1)) > 0 {
            s.time_to_reload - total(d.skip(1))
        } else {
            0
        }),
        total(d.skip(1)) < s.time_to_reload ==> reload_run(s, d).1 == 1,
    decreases d.len(),
{
    if d.len() == 1 {
        assert(d.drop_last().len() == 0);
        assert(reload_run(s, d.drop_last()) == (s, 0nat));
        assert(fires(s, fire_held()));
        assert(d.skip(1).len() == 0);
    } else {
        let p = d.drop_last();
        lemma_skip_drop(d);
        assert(all_valid_deltas(d.skip(1)));
        assert(all_valid_deltas(p.skip(1)));
        lemma_total_nonneg(p.skip(1));
        assert(d.last() == d[d.len() - 1]);
        lemma_countdown_after_shot(s, p);
        let s1 = reload_run(s, p).0;
        let n = reload_run(s, p).1;
        assert(reload_run(s, d).0 == Ship { reload_timer: reload_after(s1, fire_held(), d.last()), ..s1 });
        assert(reload_run(s, d).1 == n + if fires(s1, fire_held()) {
            1nat
        } else {
            0nat
        });
    }
}

/// Reload gating, with fire held from a ready ship: when the ticks after
/// the first shot last less than the reload interval in total, exactly one
/// bullet is fired and the countdown is the interval less that time; when the ticks before the last one already cover the
/// interval, a second bullet is fired.
pub proof fn lemma_reload_gating(s: Ship, d: Seq<int>)
    requires
        ship_ok(s),
        s.reload_timer <= 0,
        d.len() >= 1,
        all_valid_deltas(d),
        total(d.skip(1)) <= 3_600_000,
    ensures
        total(d.skip(1)) < s.time_to_reload ==> reload_run(s, d).1 == 1,
        total(d.skip(1)) < s.time_to_reload ==> reload_run(s, d).0.reload_timer == s.time_to_reload - total(
            d.skip(1),
        ),
        d.len() >= 2 && total(d.drop_last().skip(1)) >= s.time_to_reload ==> reload_run(s, d).1 >= 2,
{
    lemma_countdown_after_shot(s, d);
    if d.len() >= 2 && total(d.drop_last().skip(1)) >= s.time_to_reload {
        let p = d.drop_last();
        lemma_skip_drop(d);
        assert(all_valid_deltas(p));
        assert(d.skip(1).last() == d.last());
        assert(0 <= d.last()) by {
            assert(d.last() == d[d.len() - 1]);
        }
        lemma_countdown_after_shot(s, p);
    }
}

/// The explosion's state after ticks of the given lengths; `None` once it
/// has been removed.
pub open spec fn explosion_run(e: Explosion, d: Seq<int>) -> Option<Explosion>
    decreases d.len(),
{
    if d.len() == 0 {
        Some(e)
    } else {
        match explosion_run(e, d.drop_last()) {
            Some(x) => explosion_step(x, d.last()),
            None => None,
        }
    }
}

pub open spec fn fresh_explosion() -> Explosion {
    Explosion { time_to_update: EXPLOSION_FRAME_TIME, frame_count: 0 }
}

/// A live explosion has spent at least a full countdown on each frame it
/// has left behind, plus what has run of the current countdown.
proof fn lemma_explosion_progress(d: Seq<int>)
    requires
        all_valid_deltas(d),
    ensures
        explosion_run(fresh_explosion(), d) matches Some(x) ==> {
            &&& 0 <= x.frame_count <= EXPLOSION_FRAME_LIMIT
            &&& -MAX_DELTA_MS <= x.time_to_update <= EXPLOSION_FRAME_TIME
            &&& total(d) >= x.frame_count * EXPLOSION_FRAME_TIME + EXPLOSION_FRAME_TIME - x.time_to_update
        },
    decreases d.len(),
{
    if d.len() > 0 {
        let p = d.drop_last();
        assert(all_valid_deltas(p));
        assert(d.last() == d[d.len() - 1]);
        lemma_explosion_progress(p);
        match explosion_run(fresh_explosion(), p) {
            Some(x) => {
                assert(explosion_run(fresh_explosion(), d) == explosion_step(x, d.last()));
                assert(total(d) == total(p) + d.last());
            },
            None => {
                assert(explosion_run(fresh_explosion(), d) is None);
            },
        }
    }
}

/// Explosion termination: an explosion is removed only from its last frame,
/// after exactly `EXPLOSION_FRAME_LIMIT` frame advances, and only once the
/// ticks before have lasted at least `EXPLOSION_FRAME_LIMIT + 1` full frame
/// countdowns.
pub proof fn lemma_explosion_termination(d: Seq<int>)
    requires
        d.len() >= 1,
        all_valid_deltas(d),
        explosion_run(fresh_explosion(), d.drop_last()) is Some,
        explosion_run(fresh_explosion(), d) is None,
    ensures
        explosion_run(fresh_explosion(), d.drop_last())->Some_0.frame_count == EXPLOSION_FRAME_LIMIT,
        explosion_run(fresh_explosion(), d.drop_last())->Some_0.time_to_update <= 0,
        total(d.drop_last()) >= (EXPLOSION_FRAME_LIMIT + 1) * EXPLOSION_FRAME_TIME,
{
    assert(all_valid_deltas(d.drop_last()));
    lemma_explosion_progress(d.drop_last());
}

/// Boundary wrap: a coordinate below zero goes to `limit` less the inset,
/// one beyond the limit to the inset, one inside stays; wrapping twice is
/// wrapping once.
pub proof fn lemma_wrap_idempotent(c: int, limit: int)
    requires
        WRAP_INSET <= limit,
    ensures
        c < 0 ==> wrap_spec(c, limit) == limit - WRAP_INSET,
        c > limit ==> wrap_spec(c, limit) == WRAP_INSET,
        0 <= c <= limit ==> wrap_spec(c, limit) == c,
        wrap_spec(wrap_spec(c, limit), limit) == wrap_spec(c, limit),
{
}

/// The boundary stage leaves an entity inside the arena as it is, and
/// applying it twice is applying it once.
pub proof fn lemma_boundary_idempotent(r: EntityRecord)
    ensures
        in_arena(r.transform) ==> wrapped(r) == r,
        wrapped(wrapped(r)) == wrapped(r),
{
}

/// Between ticks the boundary stage has nothing to do: every entity of a
/// well-formed store is left as it is, and no bullet is off the arena.
pub proof fn lemma_boundary_noop_between_ticks(w: World)
    requires
        w.wf(),
    ensures
        forall|i: int| 0 <= i < w.entities@.len() ==> wrapped(#[trigger] w.entities@[i]) == w.entities@[i],
        strays(w.entities@) == Seq::<u64>::empty(),
{
    lemma_no_strays(w.entities@);
}

proof fn lemma_no_strays(s: Seq<EntityRecord>)
    requires
        forall|i: int| 0 <= i < s.len() ==> settled(#[trigger] s[i]),
    ensures
        strays(s) == Seq::<u64>::empty(),
    decreases s.len(),
{
    if s.len() > 0 {
        assert(settled(s[s.len() - 1]));
        lemma_no_strays(s.drop_last());
    }
}

/// Scoring: the score never decreases, it rises by the number of bullet
/// hits while below its cap, and each further event adds one exactly when
/// it is a bullet hit.
pub proof fn lemma_score_counts_hits(s: Seq<EntityRecord>, ev: Seq<CollisionEvent>, e: CollisionEvent, score: u64)
    ensures
        raised(score, bullet_hits(s, ev)) >= score,
        score + bullet_hits(s, ev) <= u64::MAX ==> raised(score, bullet_hits(s, ev)) == score + bullet_hits(s, ev),
        bullet_hits(s, ev.push(e)) == bullet_hits(s, ev) + if is_bullet_hit(s, e) {
            1int
        } else {
            0int
        },
{
    assert(ev.push(e).drop_last() == ev);
}

} // verus!
