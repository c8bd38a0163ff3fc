//! The remote entities the client tracks, by slot: each slot holds the track of the entity of one
//! generation (a slot reused by a new entity gets a fresh track).

use crate::track::EntityTrack;
use vstd::prelude::*;

verus! {

/// Tracks not refreshed for this long are dropped (ticks).
pub const STALE_TICKS: u32 = 90;

/// One slot's entity: its generation and its samples.
pub struct Slot<E> {
    pub generation: u8,
    pub track: EntityTrack<E>,
}

/// The tracked entities, by slot.
pub struct EntityTable<E> {
    slots: Vec<Option<Slot<E>>>,
}

/// Taking in the state `e` of the entity in `slot`, of `generation`, at `tick`, took the slots
/// from `v0` to `v1`: that slot alone changes. When it held that generation, its track takes the
/// sample if it is newer than its newest (the oldest going when the track is full); otherwise it
/// starts a fresh track with that one sample.
pub open spec fn state_applied<E: Copy>(
    v0: Seq<Option<Slot<E>>>,
    v1: Seq<Option<Slot<E>>>,
    tick: u32,
    slot: u16,
    generation: u8,
    e: E,
) -> bool {
    &&& v1.len() == v0.len()
    &&& forall|k: int| 0 <= k < v0.len() && k != slot ==> v1[k] == v0[k]
    &&& v1[slot as int] matches Some(s) && (s.generation == generation && match v0[slot as int] {
        Some(o) if o.generation == generation => {
            &&& tick <= o.track.newest().0 ==> s.track == o.track
            &&& tick > o.track.newest().0 ==> s.track.newest() == (tick, e) && s.track.window() == if o.track.window().len() < crate::track::SAMPLES {
                o.track.window().push((tick, e))
            } else {
                o.track.window().drop_first().push((tick, e))
            }
        },
        _ => s.track.window() == seq![(tick, e)] && s.track.newest() == (tick, e),
    })
}

/// The slots after an entity left `slot` at `tick`: its track goes, unless the slot already holds
/// newer news.
pub open spec fn after_leave<E: Copy>(v: Seq<Option<Slot<E>>>, tick: u32, slot: u16) -> Seq<Option<Slot<E>>> {
    if slot < v.len() && (v[slot as int] matches Some(s) && s.track.newest().0 <= tick) {
        v.update(slot as int, None)
    } else {
        v
    }
}

/// Whether the track in a slot is stale at `tick`: more than [`STALE_TICKS`] older.
pub open spec fn stale_at<E: Copy>(s: Option<Slot<E>>, tick: u32) -> bool {
    s matches Some(t) && tick - t.track.newest().0 > STALE_TICKS
}

/// The slots with the tracks stale at `tick` forgotten.
pub open spec fn after_prune<E: Copy>(v: Seq<Option<Slot<E>>>, tick: u32) -> Seq<Option<Slot<E>>> {
    Seq::new(v.len(), |k: int| if stale_at(v[k], tick) { None } else { v[k] })
}

impl<E: Copy> EntityTable<E> {
    /// The slots.
    pub closed spec fn view_slots(&self) -> Seq<Option<Slot<E>>> {
        self.slots@
    }

    /// Every track well formed.
    pub closed spec fn wf(&self) -> bool {
        forall|k: int|
            0 <= k < self.slots@.len() ==> (#[trigger] self.slots@[k] matches Some(s)
                ==> s.track.wf())
    }

    /// `capacity` empty slots.
    pub fn new(capacity: usize) -> (t: Self)
        ensures
            t.wf(),
            t.view_slots().len() == capacity,
            forall|k: int| 0 <= k < capacity ==> t.view_slots()[k] is None,
    {
        let mut slots: Vec<Option<Slot<E>>> = Vec::new();
        while slots.len() < capacity
            invariant
                slots@.len() <= capacity,
                forall|k: int| 0 <= k < slots@.len() ==> slots@[k] is None,
            decreases capacity - slots@.len(),
        {
            slots.push(None);
        }
        EntityTable { slots }
    }

    /// How many slots there are.
    pub fn capacity(&self) -> (n: usize)
        ensures
            n == self.view_slots().len(),
    {
        self.slots.len()
    }

    /// The track in `slot`, if any.
    pub fn get(&self, slot: u16) -> (t: Option<&EntityTrack<E>>)
        requires
            self.wf(),
        ensures
            match t {
                Some(tr) => slot < self.view_slots().len() && (self.view_slots()[slot as int] matches Some(s) && *tr == s.track && tr.wf()),
                None => slot >= self.view_slots().len() || self.view_slots()[slot as int] is None,
            },
    {
        if (slot as usize) < self.slots.len() {
            match &self.slots[slot as usize] {
                Some(s) => Some(&s.track),
                None => None,
            }
        } else {
            None
        }
    }

    /// Takes in the state of the entity in `slot`, of `generation`, at `tick`: added to its track
    /// when the slot holds that generation, else the slot starts a fresh track.
    pub fn apply_state(&mut self, tick: u32, slot: u16, generation: u8, e: E)
        requires
            old(self).wf(),
            slot < old(self).view_slots().len(),
        ensures
            final(self).wf(),
            state_applied(old(self).view_slots(), final(self).view_slots(), tick, slot, generation, e),
    {
        let k = slot as usize;
        let mut entry: Option<Slot<E>> = None;
        self.slots.set_and_swap(k, &mut entry);
        let fresh = match entry {
            Some(mut s) => {
                if s.generation == generation {
                    s.track.push(tick, e);
                    s
                } else {
                    Slot { generation, track: EntityTrack::new(tick, e) }
                }
            },
            None => Slot { generation, track: EntityTrack::new(tick, e) },
        };
        self.slots.set(k, Some(fresh));
    }

    /// An entity left `slot` at `tick`: its track goes, unless the slot already holds newer
    /// news (a new entity that arrived after the departure).
    pub fn leave(&mut self, tick: u32, slot: u16)
        requires
            old(self).wf(),
        ensures
            final(self).wf(),
            final(self).view_slots() == after_leave(old(self).view_slots(), tick, slot),
    {
        let k = slot as usize;
        if k < self.slots.len() {
            let gone = match &self.slots[k] {
                Some(s) => s.track.latest_tick() <= tick,
                None => false,
            };
            if gone {
                self.slots.set(k, None);
            }
        }
    }

    /// Forgets the tracks the server stopped updating without saying so (a lost departure): those
    /// more than [`STALE_TICKS`] older than `tick`.
    pub fn prune_stale(&mut self, tick: u32)
        requires
            old(self).wf(),
        ensures
            final(self).wf(),
            final(self).view_slots() == after_prune(old(self).view_slots(), tick),
    {
        let mut k: usize = 0;
        while k < self.slots.len()
            invariant
                self.wf(),
                k <= self.slots@.len(),
                self.slots@.len() == old(self).slots@.len(),
                forall|j: int|
                    0 <= j < k ==> #[trigger] self.slots@[j] == if stale_at(old(self).slots@[j], tick) {
                        None
                    } else {
                        old(self).slots@[j]
                    },
                forall|j: int| k <= j < self.slots@.len() ==> #[trigger] self.slots@[j] == old(self).slots@[j],
            decreases self.slots@.len() - k,
        {
            let stale = match &self.slots[k] {
                Some(s) => tick.saturating_sub(s.track.latest_tick()) > STALE_TICKS,
                None => false,
            };
            if stale {
                self.slots.set(k, None);
            }
            k = k + 1;
        }
        assert(self.slots@ =~= after_prune(old(self).slots@, tick));
    }
}

/// Pruning forgets exactly the tracks more than [`STALE_TICKS`] behind `tick`: every track still
/// there was refreshed within that many ticks, every such track stays untouched, and no slot
/// gains a track.
pub proof fn lemma_prune_forgets_only_the_stale<E: Copy>(v: Seq<Option<Slot<E>>>, tick: u32, k: int)
    requires
        0 <= k < v.len(),
    ensures
        after_prune(v, tick).len() == v.len(),
        after_prune(v, tick)[k] matches Some(s) ==> v[k] == Some(s) && tick - s.track.newest().0 <= STALE_TICKS,
        v[k] matches Some(s) && tick - s.track.newest().0 <= STALE_TICKS ==> after_prune(v, tick)[k] == v[k],
        v[k] is None ==> after_prune(v, tick)[k] is None,
{
}

/// A departure takes away only the track in its slot, and only when that track has no news newer
/// than the departure; a later departure never leaves a track that an earlier one took.
pub proof fn lemma_leave_takes_only_its_slot<E: Copy>(v: Seq<Option<Slot<E>>>, tick: u32, slot: u16, k: int)
    requires
        0 <= k < v.len(),
    ensures
        after_leave(v, tick, slot).len() == v.len(),
        k != slot ==> after_leave(v, tick, slot)[k] == v[k],
        k == slot ==> (after_leave(v, tick, slot)[k] is None <==> (v[k] is None || v[k]->0.track.newest().0 <= tick)),
        k == slot && after_leave(v, tick, slot)[k] is Some ==> after_leave(v, tick, slot)[k] == v[k],
{
}

} // verus!
