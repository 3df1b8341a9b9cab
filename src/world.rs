//! The entity store: live entities, creations and deletions queued during a
//! tick, and the barrier that applies them between ticks.

use vstd::prelude::*;
use crate::components::{EntityRecord, entity_ok, settled, in_arena};

verus! {

pub open spec fn ids_unique(s: Seq<EntityRecord>) -> bool {
    forall|i: int, j: int| 0 <= i < j < s.len() ==> s[i].id != s[j].id
}

pub open spec fn ids_below(s: Seq<EntityRecord>, n: u64) -> bool {
    forall|i: int| 0 <= i < s.len() ==> s[i].id < n
}

/// The record with the given id, if the store holds one.
pub open spec fn find(s: Seq<EntityRecord>, id: u64) -> Option<EntityRecord> {
    if exists|i: int| 0 <= i < s.len() && s[i].id == id {
        Some(s[choose|i: int| 0 <= i < s.len() && s[i].id == id])
    } else {
        None
    }
}

/// The records of `s` whose ids are not in `doomed`, in their order.
pub open spec fn survivors(s: Seq<EntityRecord>, doomed: Seq<u64>) -> Seq<EntityRecord>
    decreases s.len(),
{
    if s.len() == 0 {
        seq![]
    } else {
        let rest = survivors(s.drop_last(), doomed);
        if doomed.contains(s.last().id) {
            rest
        } else {
            rest.push(s.last())
        }
    }
}

pub open spec fn with_id(r: EntityRecord, id: u64) -> EntityRecord {
    EntityRecord { id, ..r }
}

/// Queued records, given consecutive ids from `start`.
pub open spec fn numbered(p: Seq<EntityRecord>, start: int) -> Seq<EntityRecord> {
    Seq::new(p.len(), |i: int| with_id(p[i], (start + i) as u64))
}

/// How many queued records can still get an id.
pub open spec fn admitted(pending_len: int, next_id: u64) -> int {
    if pending_len <= u64::MAX - next_id {
        pending_len
    } else {
        u64::MAX - next_id
    }
}

/// Every moving entity or bullet that has left the arena is queued for
/// deletion.
pub open spec fn strays_doomed(s: Seq<EntityRecord>, doomed: Seq<u64>) -> bool {
    forall|i: int|
        #![trigger s[i]]
        0 <= i < s.len() && (s[i].physical is Some || s[i].bullet is Some) && !in_arena(s[i].transform)
            ==> doomed.contains(s[i].id)
}

/// Live entities with the queues of the tick in progress.
pub struct World {
    pub entities: Vec<EntityRecord>,
    pub pending: Vec<EntityRecord>,
    pub doomed: Vec<u64>,
    pub next_id: u64,
}

impl World {
    /// What holds at every point of a tick.
    pub open spec fn sound(&self) -> bool {
        &&& ids_unique(self.entities@)
        &&& ids_below(self.entities@, self.next_id)
        &&& forall|i: int| 0 <= i < self.entities@.len() ==> entity_ok(#[trigger] self.entities@[i])
        &&& forall|i: int| 0 <= i < self.pending@.len() ==> settled(#[trigger] self.pending@[i])
    }

    /// What holds between ticks: every entity settled and no queued work.
    pub open spec fn wf(&self) -> bool {
        &&& self.sound()
        &&& forall|i: int| 0 <= i < self.entities@.len() ==> settled(#[trigger] self.entities@[i])
        &&& self.pending@.len() == 0
        &&& self.doomed@.len() == 0
    }

    /// An empty store.
    pub fn new() -> (r: World)
        ensures
            r.wf(),
            r.entities@.len() == 0,
            r.next_id == 0,
    {
        World { entities: Vec::new(), pending: Vec::new(), doomed: Vec::new(), next_id: 0 }
    }

    /// Queues a creation; the entity becomes live at the next barrier.
    pub fn create(&mut self, r: EntityRecord)
        ensures
            final(self).pending@ == old(self).pending@.push(r),
            final(self).entities@ == old(self).entities@,
            final(self).doomed@ == old(self).doomed@,
            final(self).next_id == old(self).next_id,
    {
        self.pending.push(r);
    }

    /// Queues a deletion; deleting an id twice, or one the store lacks, is
    /// harmless.
    pub fn delete(&mut self, id: u64)
        ensures
            final(self).doomed@ == old(self).doomed@.push(id),
            final(self).entities@ == old(self).entities@,
            final(self).pending@ == old(self).pending@,
            final(self).next_id == old(self).next_id,
    {
        self.doomed.push(id);
    }

    /// The live record with the given id.
    pub fn get(&self, id: u64) -> (r: Option<EntityRecord>)
        requires
            ids_unique(self.entities@),
        ensures
            r == find(self.entities@, id),
    {
        let mut i: usize = 0;
        while i < self.entities.len()
            invariant
                i <= self.entities@.len(),
                ids_unique(self.entities@),
                forall|j: int| 0 <= j < i ==> self.entities@[j].id != id,
            decreases self.entities@.len() - i,
        {
            if self.entities[i].id == id {
                assert(0 <= i < self.entities@.len() && self.entities@[i as int].id == id);
                let ghost c = choose|k: int| 0 <= k < self.entities@.len() && self.entities@[k].id == id;
                proof {
                if c < i as int {
                    assert(self.entities@[c].id != self.entities@[i as int].id);
                } else if c > i as int {
                    assert(0 <= c < self.entities@.len() && self.entities@[c].id == id);
                    assert(self.entities@[i as int].id != self.entities@[c].id);
                }
                }
                return Some(self.entities[i]);
            }
            i = i + 1;
        }
        None
    }

    /// The barrier between ticks: removes the entities queued for deletion,
    /// then makes the queued creations live under fresh ids (as many as ids
    /// remain), and empties both queues.
    pub fn maintain(&mut self)
        requires
            old(self).sound(),
            strays_doomed(old(self).entities@, old(self).doomed@),
        ensures
            final(self).wf(),
            final(self).entities@ == survivors(old(self).entities@, old(self).doomed@) + numbered(
                old(self).pending@.take(admitted(old(self).pending@.len() as int, old(self).next_id)),
                old(self).next_id as int,
            ),
            final(self).next_id == old(self).next_id + admitted(
                old(self).pending@.len() as int,
                old(self).next_id,
            ),
    {
        let ghost s = self.entities@;
        let ghost d = self.doomed@;
        let ghost start = self.next_id;
        let mut out: Vec<EntityRecord> = Vec::new();
        let mut i: usize = 0;
        while i < self.entities.len()
            invariant
                s == self.entities@,
                d == self.doomed@,
                i <= s.len(),
                ids_unique(s),
                ids_below(s, start),
                forall|j: int| 0 <= j < s.len() ==> entity_ok(#[trigger] s[j]),
                strays_doomed(s, d),
                out@ == survivors(s.take(i as int), d),
                ids_unique(out@),
                forall|k: int|
                    0 <= k < out@.len() ==> exists|j: int| 0 <= j < i && (#[trigger] out@[k]) == s[j],
                forall|k: int| 0 <= k < out@.len() ==> settled(#[trigger] out@[k]),
                forall|k: int| 0 <= k < out@.len() ==> (#[trigger] out@[k]).id < start,
            decreases s.len() - i,
        {
            let r = self.entities[i];
            assert(s.take(i + 1).drop_last() == s.take(i as int));
            let mut hit = false;
            let mut k: usize = 0;
            while k < self.doomed.len()
                invariant
                    d == self.doomed@,
                    k <= d.len(),
                    hit == (exists|j: int| 0 <= j < k && d[j] == r.id),
                decreases d.len() - k,
            {
                if self.doomed[k] == r.id {
                    hit = true;
                }
                k = k + 1;
            }
            assert(hit == d.contains(r.id));
            if !hit {
                assert forall|k2: int| 0 <= k2 < out@.len() implies out@[k2].id != r.id by {
                    let j = choose|j: int| 0 <= j < i && out@[k2] == s[j];
                }
                out.push(r);
            }
            i = i + 1;
        }
        assert(s.take(s.len() as int) == s);
        let ghost kept = out@;
        let n = self.pending.len();
        let mut j: usize = 0;
        let mut id = self.next_id;
        while j < n && id < u64::MAX
            invariant
                n == self.pending@.len(),
                j <= n,
                id == start + j,
                out@.len() == kept.len() + j,
                out@.take(kept.len() as int) == kept,
                out@.skip(kept.len() as int) == numbered(self.pending@.take(j as int), start as int),
                ids_unique(out@),
                forall|k: int| 0 <= k < out@.len() ==> settled(#[trigger] out@[k]),
                forall|k: int| 0 <= k < out@.len() ==> (#[trigger] out@[k]).id < id,
                forall|k: int| 0 <= k < self.pending@.len() ==> settled(#[trigger] self.pending@[k]),
            decreases n - j,
        {
            let mut r = self.pending[j];
            r.id = id;
            assert(r == with_id(self.pending@[j as int], id));
            let ghost before = out@;
            out.push(r);
            assert(out@.take(kept.len() as int) == before.take(kept.len() as int));
            assert(out@.skip(kept.len() as int) == before.skip(kept.len() as int).push(r));
            assert(numbered(self.pending@.take(j + 1), start as int) == numbered(
                self.pending@.take(j as int),
                start as int,
            ).push(r));
            j = j + 1;
            id = id + 1;
        }
        assert(j as int == admitted(n as int, start));
        assert(out@ == kept + numbered(self.pending@.take(j as int), start as int)) by {
            assert(out@ == out@.take(kept.len() as int) + out@.skip(kept.len() as int));
        }
        self.entities = out;
        self.pending = Vec::new();
        self.doomed = Vec::new();
        self.next_id = id;
    }
}

} // verus!
