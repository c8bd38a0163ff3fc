//! The client's model of the sector, built from snapshots: the remote entities' tracks, the beams
//! in flight, and the ledger of events. A snapshot older than the newest applied is ignored; each
//! event arrives in several snapshots and is taken in once.

use crate::beams::{hit_step, spawn_step, Beam, Beams};
use crate::entities::{after_leave, after_prune, state_applied, EntityTable, Slot};
use crate::ledger::{after_first, after_hit, after_kill, after_notice, lemma_taken_once, FeedLine, Ledger, LedgerView, SEEN_CAP};
use vstd::prelude::*;

verus! {

/// A sector event, with what the client reads of it. `L` is what drawing a beam needs; `H` what
/// drawing a hit needs (the part struck, the weapon).
#[derive(Clone, Copy, Debug)]
pub enum Event<L, H> {
    /// The entity in `slot` left.
    Leave { tick: u32, slot: u16 },
    /// A beam left `shooter`'s muzzle at `tick` (its shot number `shot_seq`), to fly `ttl_ticks`.
    BeamSpawn { id: u16, tick: u32, shooter: u16, shot_seq: u8, ttl_ticks: u32, look: L },
    /// `shooter` hit `target` at `tick`; `beam_weapon` tells whether the weapon shoots beams.
    Hit { id: u16, tick: u32, target: u16, shooter: u16, beam_weapon: bool, what: H },
    /// `victim` destroyed by `killer`, leaving `hulk` (or nothing).
    Kill { id: u16, tick: u32, victim: u16, killer: u16, hulk: Option<u16> },
    /// Blades clashed between `a` and `b`.
    Clash { id: u16, tick: u32, a: u16, b: u16 },
    /// The ZERO System seized (or released) `pilot`.
    Seizure { id: u16, tick: u32, pilot: u16, active: bool },
    /// A limb came off (the chunk it leaves arrives in the objects list).
    Detach,
    /// A rock shattered (likewise).
    RockBreak,
}

/// A hit taken in, for sparks and hit markers.
#[derive(Clone, Copy, Debug)]
pub struct HitNote<L, H> {
    pub tick: u32,
    pub target: u16,
    pub shooter: u16,
    /// This pilot landed it.
    pub by_me: bool,
    /// This pilot took it.
    pub on_me: bool,
    /// The beam that hit, which stops being drawn (its line places the sparks).
    pub beam: Option<Beam<L>>,
    pub what: H,
}

/// The world, as mathematical values.
pub struct WorldView<E, L, H, O, Z> {
    /// The newest snapshot's tick.
    pub tick: u32,
    /// The own suit's slot and state, from the newest snapshot.
    pub own: Option<(u16, O)>,
    /// What the ZERO System told this pilot in the newest snapshot.
    pub zero: Option<Z>,
    pub slots: Seq<Option<Slot<E>>>,
    pub ledger: LedgerView,
    pub beams: Seq<Beam<L>>,
    /// The hits taken in, oldest first, for sparks and hit markers.
    pub hits: Seq<HitNote<L, H>>,
}

/// The client's model of the sector. `O` is the own suit's state and `Z` the ZERO System's word,
/// both as the newest snapshot gave them.
pub struct World<E, L, H, O, Z> {
    tick: u32,
    own: Option<(u16, O)>,
    zero: Option<Z>,
    entities: EntityTable<E>,
    ledger: Ledger,
    beams: Beams<L>,
    hits: Vec<HitNote<L, H>>,
}

/// How long (ticks) hit marks are kept.
pub const HIT_TICKS: u32 = 60;

/// This pilot's slot, if it has a suit.
pub open spec fn slot_of<O>(own: Option<(u16, O)>) -> Option<u16> {
    match own {
        Some((slot, _)) => Some(slot),
        None => None,
    }
}

/// Hit marks still kept when the newest snapshot is of `tick`: those of the last [`HIT_TICKS`].
pub open spec fn recent<L, H>(tick: u32) -> spec_fn(HitNote<L, H>) -> bool {
    |h: HitNote<L, H>| h.tick >= (if tick >= HIT_TICKS { tick - HIT_TICKS } else { 0 })
}

/// One event took the world from `w0` to `w1`, handing back `note` (a hit taken in, which joins
/// the world's hits); `me` is this pilot's slot.
pub open spec fn event_step<E: Copy, L, H, O, Z>(
    w0: WorldView<E, L, H, O, Z>,
    w1: WorldView<E, L, H, O, Z>,
    ev: Event<L, H>,
    me: Option<u16>,
    note: Option<HitNote<L, H>>,
) -> bool {
    &&& w1.tick == w0.tick
    &&& w1.own == w0.own
    &&& w1.zero == w0.zero
    &&& w1.hits == match note {
        Some(n) => w0.hits.push(n),
        None => w0.hits,
    }
    &&& match ev {
        Event::Leave { tick, slot } => {
            &&& w1.slots == after_leave(w0.slots, tick, slot)
            &&& w1.ledger == w0.ledger
            &&& w1.beams == w0.beams
            &&& note is None
        },
        Event::BeamSpawn { id, tick, shooter, shot_seq, ttl_ticks, look } => {
            &&& w1.slots == w0.slots
            &&& w1.ledger == after_first(w0.ledger, id)
            &&& if w0.ledger.seen.contains(id) {
                w1.beams == w0.beams
            } else {
                exists|confirmed: bool|
                    #[trigger] spawn_step(w0.beams, w1.beams, confirmed, id, shooter, shot_seq, tick, ttl_ticks, look, me)
            }
            &&& note is None
        },
        Event::Hit { id, tick, target, shooter, beam_weapon, what } => {
            &&& w1.slots == w0.slots
            &&& w1.ledger == after_hit(w0.ledger, id, target, shooter, me)
            &&& if w0.ledger.seen.contains(id) {
                w1.beams == w0.beams && note is None
            } else {
                exists|r: Option<Beam<L>>|
                    {
                        &&& #[trigger] hit_step(w0.beams, w1.beams, r, shooter, tick, beam_weapon)
                        &&& note == Some(
                            HitNote {
                                tick,
                                target,
                                shooter,
                                by_me: me == Some(shooter),
                                on_me: me == Some(target),
                                beam: r,
                                what,
                            },
                        )
                    }
            }
        },
        Event::Kill { id, tick, victim, killer, hulk } => {
            &&& w1.slots == w0.slots
            &&& w1.ledger == after_kill(w0.ledger, id, tick, victim, killer, hulk, me)
            &&& w1.beams == w0.beams
            &&& note is None
        },
        Event::Clash { id, tick, a, b } => {
            &&& w1.slots == w0.slots
            &&& w1.ledger == after_notice(w0.ledger, id, FeedLine::Clash { tick, a, b })
            &&& w1.beams == w0.beams
            &&& note is None
        },
        Event::Seizure { id, tick, pilot, active } => {
            &&& w1.slots == w0.slots
            &&& w1.ledger == after_notice(w0.ledger, id, FeedLine::Seizure { tick, pilot, active })
            &&& w1.beams == w0.beams
            &&& note is None
        },
        Event::Detach | Event::RockBreak => w1 == w0 && note is None,
    }
}

/// Taking in one entity state (slot, generation, state) at `tick` took the slots from `v0` to
/// `v1`; the own suit (`me`) is not tracked here.
pub open spec fn entity_step<E: Copy>(
    v0: Seq<Option<Slot<E>>>,
    v1: Seq<Option<Slot<E>>>,
    tick: u32,
    me: Option<u16>,
    st: (u16, u8, E),
) -> bool {
    if me == Some(st.0) {
        v1 == v0
    } else {
        state_applied(v0, v1, tick, st.0, st.1, st.2)
    }
}

/// The notes handed back, in order.
pub open spec fn somes<L, H>(ns: Seq<Option<HitNote<L, H>>>) -> Seq<HitNote<L, H>>
    decreases ns.len(),
{
    if ns.len() == 0 {
        Seq::empty()
    } else {
        match ns.last() {
            Some(n) => somes(ns.drop_last()).push(n),
            None => somes(ns.drop_last()),
        }
    }
}

/// The snapshot of `tick` (the own suit `own`, the ZERO System's word `zero`, entity states `ents`
/// and events `events`) took the world from `w0` to `w1` and handed back `notes`: the tick, the own
/// suit and the ZERO word become the newest; each entity state but the own suit's is taken in, in
/// order; then each event, in order; then the tracks stale at `tick` are forgotten.
pub open spec fn snapshot_applied<E: Copy, L, H, O, Z>(
    w0: WorldView<E, L, H, O, Z>,
    w1: WorldView<E, L, H, O, Z>,
    tick: u32,
    own: Option<(u16, O)>,
    zero: Option<Z>,
    ents: Seq<(u16, u8, E)>,
    events: Seq<Event<L, H>>,
    notes: Seq<HitNote<L, H>>,
) -> bool {
    let me = slot_of(own);
    exists|cs: Seq<Seq<Option<Slot<E>>>>, ws: Seq<WorldView<E, L, H, O, Z>>, ns: Seq<Option<HitNote<L, H>>>|
        {
            &&& cs.len() == ents.len() + 1
            &&& cs[0] == w0.slots
            &&& forall|i: int|
                0 <= i < ents.len() ==> #[trigger] entity_step(cs[i], cs[i + 1], tick, me, ents[i])
            &&& ws.len() == events.len() + 1
            &&& ns.len() == events.len()
            &&& ws[0] == (WorldView { tick, own, zero, slots: cs.last(), ..w0 })
            &&& forall|i: int|
                0 <= i < events.len() ==> #[trigger] event_step(ws[i], ws[i + 1], events[i], me, ns[i])
            &&& w1 == (WorldView { slots: after_prune(ws.last().slots, tick), ..ws.last() })
            &&& notes == somes(ns)
        }
}

/// Room in the pilot's tallies for `n` more events.
pub open spec fn tallies_fit(l: LedgerView, n: int) -> bool {
    &&& l.my_hits + n <= u32::MAX
    &&& l.my_kills + n <= u32::MAX
    &&& l.my_deaths + n <= u32::MAX
    &&& l.hits_taken + n <= u32::MAX
}

impl<E: Copy, L: Copy, H: Copy, O, Z> View for World<E, L, H, O, Z> {
    type V = WorldView<E, L, H, O, Z>;

    closed spec fn view(&self) -> WorldView<E, L, H, O, Z> {
        WorldView {
            tick: self.tick,
            own: self.own,
            zero: self.zero,
            slots: self.entities.view_slots(),
            ledger: self.ledger@,
            beams: self.beams@,
            hits: self.hits@,
        }
    }
}

impl<E: Copy, L: Copy, H: Copy, O, Z> World<E, L, H, O, Z> {
    /// Its parts well formed.
    pub closed spec fn wf(&self) -> bool {
        &&& self.entities.wf()
        &&& self.ledger.wf()
    }

    /// Nothing known yet, with `capacity` entity slots.
    pub fn new(capacity: usize) -> (w: Self)
        ensures
            w.wf(),
            w@.tick == 0,
            w@.slots.len() == capacity,
            forall|k: int| 0 <= k < capacity ==> w@.slots[k] is None,
            w@.ledger.seen.len() == 0 && w@.ledger.feed.len() == 0 && w@.ledger.hulks.is_empty(),
            w@.ledger.my_hits == 0 && w@.ledger.my_kills == 0 && w@.ledger.my_deaths == 0
                && w@.ledger.hits_taken == 0,
            w@.beams.len() == 0,
            w@.own is None && w@.zero is None && w@.hits.len() == 0,
    {
        World {
            tick: 0,
            own: None,
            zero: None,
            entities: EntityTable::new(capacity),
            ledger: Ledger::new(),
            beams: Beams::new(),
            hits: Vec::new(),
        }
    }

    /// The own suit's slot and state, from the newest snapshot.
    pub fn own(&self) -> (o: &Option<(u16, O)>)
        ensures
            *o == self@.own,
    {
        &self.own
    }

    /// This pilot's slot, if it has a suit.
    pub fn own_slot(&self) -> (s: Option<u16>)
        ensures
            s == slot_of(self@.own),
    {
        match &self.own {
            Some((slot, _)) => Some(*slot),
            None => None,
        }
    }

    /// What the ZERO System said in the newest snapshot.
    pub fn zero(&self) -> (z: &Option<Z>)
        ensures
            *z == self@.zero,
    {
        &self.zero
    }

    /// The hits taken in and still kept, oldest first.
    pub fn hits(&self) -> (h: &Vec<HitNote<L, H>>)
        ensures
            h@ == self@.hits,
    {
        &self.hits
    }

    /// The newest snapshot's tick.
    pub fn tick(&self) -> (t: u32)
        ensures
            t == self@.tick,
    {
        self.tick
    }

    /// The remote entities' tracks.
    pub fn entities(&self) -> (t: &EntityTable<E>)
        requires
            self.wf(),
        ensures
            t.wf(),
            t.view_slots() == self@.slots,
    {
        &self.entities
    }

    /// The ledger of events.
    pub fn ledger(&self) -> (l: &Ledger)
        requires
            self.wf(),
        ensures
            l.wf(),
            l@ == self@.ledger,
    {
        &self.ledger
    }

    /// The beams in flight.
    pub fn beams(&self) -> (b: &Beams<L>)
        ensures
            b@ == self@.beams,
    {
        &self.beams
    }

    /// This pilot's own shot, drawn at once (see [`Beams::predict`]).
    pub fn predict_beam(&mut self, shooter: u16, shot_seq: u8, tick: u32, ttl_ticks: u32, look: L)
        requires
            old(self).wf(),
        ensures
            final(self).wf(),
            final(self)@ == (WorldView {
                beams: old(self)@.beams.push(
                    Beam { id: 0, shooter, spawn_tick: tick, ttl_ticks, predicted: true, shot_seq, look },
                ),
                ..old(self)@
            }),
    {
        self.beams.predict(shooter, shot_seq, tick, ttl_ticks, look);
    }

    /// Drops the beams no longer drawn at time `t` (`t_ceil`: the smallest whole tick not before
    /// it; see [`Beams::prune`]) and the hit marks older than [`HIT_TICKS`] before the newest
    /// snapshot, keeping the order of the rest.
    pub fn prune(&mut self, t_ceil: i64)
        requires
            old(self).wf(),
        ensures
            final(self).wf(),
            final(self)@ == (WorldView {
                beams: old(self)@.beams.filter(crate::beams::showing(t_ceil as int)),
                hits: old(self)@.hits.filter(recent(old(self)@.tick)),
                ..old(self)@
            }),
    {
        self.beams.prune(t_ceil);
        let keep_after = self.tick.saturating_sub(HIT_TICKS);
        let ghost p = recent::<L, H>(self.tick);
        let ghost s = self.hits@;
        let mut kept: Vec<HitNote<L, H>> = Vec::new();
        let mut k: usize = 0;
        while k < self.hits.len()
            invariant
                self.hits@ == s,
                k <= s.len(),
                kept@ == s.take(k as int).filter(p),
                p == recent::<L, H>(self.tick),
                keep_after == (if self.tick >= HIT_TICKS { self.tick - HIT_TICKS } else { 0 }),
            decreases s.len() - k,
        {
            let h = self.hits[k];
            proof {
                reveal(Seq::filter);
                assert(s.take(k + 1).drop_last() =~= s.take(k as int));
                assert(s.take(k + 1).last() == h);
            }
            if h.tick >= keep_after {
                kept.push(h);
            }
            k = k + 1;
        }
        assert(s.take(s.len() as int) =~= s);
        self.hits = kept;
    }

    /// Applies one event; `me` is this pilot's slot. A hit taken in joins the world's hits and is
    /// handed back.
    pub fn apply_event(&mut self, ev: Event<L, H>, me: Option<u16>) -> (note: Option<HitNote<L, H>>)
        requires
            old(self).wf(),
            old(self)@.ledger.my_hits < u32::MAX,
            old(self)@.ledger.my_kills < u32::MAX,
            old(self)@.ledger.my_deaths < u32::MAX,
            old(self)@.ledger.hits_taken < u32::MAX,
        ensures
            final(self).wf(),
            event_step(old(self)@, final(self)@, ev, me, note),
    {
        match ev {
            Event::Leave { tick, slot } => {
                self.entities.leave(tick, slot);
                None
            },
            Event::BeamSpawn { id, tick, shooter, shot_seq, ttl_ticks, look } => {
                if self.ledger.first_time(id) {
                    let confirmed = self.beams.spawned(id, shooter, shot_seq, tick, ttl_ticks, look, me);
                    assert(spawn_step(old(self)@.beams, self@.beams, confirmed, id, shooter, shot_seq, tick, ttl_ticks, look, me));
                }
                None
            },
            Event::Hit { id, tick, target, shooter, beam_weapon, what } => {
                if !self.ledger.on_hit(id, target, shooter, me) {
                    return None;
                }
                let beam = self.beams.hit(shooter, tick, beam_weapon);
                let note = HitNote {
                    tick,
                    target,
                    shooter,
                    by_me: me == Some(shooter),
                    on_me: me == Some(target),
                    beam,
                    what,
                };
                self.hits.push(note);
                assert(hit_step(old(self)@.beams, self@.beams, beam, shooter, tick, beam_weapon));
                Some(note)
            },
            Event::Kill { id, tick, victim, killer, hulk } => {
                let _ = self.ledger.on_kill(id, tick, victim, killer, hulk, me);
                None
            },
            Event::Clash { id, tick, a, b } => {
                let _ = self.ledger.on_clash(id, tick, a, b);
                None
            },
            Event::Seizure { id, tick, pilot, active } => {
                let _ = self.ledger.on_seizure(id, tick, pilot, active);
                None
            },
            Event::Detach | Event::RockBreak => None,
        }
    }

    /// Applies the snapshot of `tick`: the own suit (its slot and state) `own`, the ZERO System's
    /// word `zero`, the events `events` and the entity states `ents` (slot, generation, state). A
    /// snapshot older than the newest applied changes nothing. Otherwise the tick, the own suit and
    /// the ZERO word become the newest, each entity state but the own suit's is taken in, then each
    /// event, and then the tracks stale at `tick` are forgotten (the server stopped updating them
    /// without saying so). The hits taken in join the world's hits and are handed back, in order.
    pub fn apply(
        &mut self,
        tick: u32,
        own: Option<(u16, O)>,
        zero: Option<Z>,
        events: &[Event<L, H>],
        ents: &[(u16, u8, E)],
    ) -> (notes: Vec<HitNote<L, H>>)
        requires
            old(self).wf(),
            forall|i: int| 0 <= i < ents@.len() ==> (#[trigger] ents@[i]).0 < old(self)@.slots.len(),
            tallies_fit(old(self)@.ledger, events@.len() as int),
        ensures
            final(self).wf(),
            tick < old(self)@.tick ==> final(self)@ == old(self)@ && notes@.len() == 0,
            tick >= old(self)@.tick ==> snapshot_applied(
                old(self)@,
                final(self)@,
                tick,
                own,
                zero,
                ents@,
                events@,
                notes@,
            ),
            tick >= old(self)@.tick ==> final(self)@.hits == old(self)@.hits + notes@,
    {
        if tick < self.tick {
            return Vec::new();
        }
        let ghost w0 = self@;
        let me = match &own {
            Some((slot, _)) => Some(*slot),
            None => None,
        };
        self.tick = tick;
        self.own = own;
        self.zero = zero;
        let ghost mut cs: Seq<Seq<Option<Slot<E>>>> = seq![w0.slots];
        let mut i: usize = 0;
        while i < ents.len()
            invariant
                self.wf(),
                self.tick == tick,
                self.ledger@ == w0.ledger,
                self.beams@ == w0.beams,
                self.hits@ == w0.hits,
                self.own == own,
                self.zero == zero,
                me == slot_of(own),
                i <= ents@.len(),
                cs.len() == i + 1,
                cs[0] == w0.slots,
                cs.last() == self.entities.view_slots(),
                self.entities.view_slots().len() == w0.slots.len(),
                forall|j: int| 0 <= j < ents@.len() ==> (#[trigger] ents@[j]).0 < w0.slots.len(),
                forall|j: int| 0 <= j < i ==> #[trigger] entity_step(cs[j], cs[j + 1], tick, me, ents@[j]),
            decreases ents@.len() - i,
        {
            let (slot, generation, e) = ents[i];
            assert(ents@[i as int] == (slot, generation, e));
            if me != Some(slot) {
                self.entities.apply_state(tick, slot, generation, e);
            }
            proof {
                let c2 = cs.push(self.entities.view_slots());
                assert(entity_step(c2[i as int], c2[i + 1], tick, me, ents@[i as int]));
                assert forall|j: int| 0 <= j < i + 1 implies #[trigger] entity_step(c2[j], c2[j + 1], tick, me, ents@[j]) by {
                    if j < i {
                        assert(c2[j] == cs[j] && c2[j + 1] == cs[j + 1]);
                    }
                }
                cs = c2;
            }
            i = i + 1;
        }
        let ghost mut ws: Seq<WorldView<E, L, H, O, Z>> = seq![self@];
        let ghost mut ns: Seq<Option<HitNote<L, H>>> = Seq::empty();
        assert(ws[0] == (WorldView { tick, own, zero, slots: cs.last(), ..w0 }));
        let mut notes: Vec<HitNote<L, H>> = Vec::new();
        let mut k: usize = 0;
        while k < events.len()
            invariant
                self.wf(),
                k <= events@.len(),
                ws.len() == k + 1,
                ns.len() == k,
                ws[0] == (WorldView { tick, own, zero, slots: cs.last(), ..w0 }),
                ws.last() == self@,
                me == slot_of(own),
                self@.hits == w0.hits + notes@,
                self@.tick == tick,
                forall|j: int| 0 <= j < k ==> #[trigger] event_step(ws[j], ws[j + 1], events@[j], me, ns[j]),
                notes@ == somes(ns),
                tallies_fit(self@.ledger, events@.len() - k),
            decreases events@.len() - k,
        {
            let n = self.apply_event(events[k], me);
            proof {
                let w2 = ws.push(self@);
                let n2 = ns.push(n);
                assert(event_step(w2[k as int], w2[k + 1], events@[k as int], me, n2[k as int]));
                assert forall|j: int| 0 <= j < k + 1 implies #[trigger] event_step(w2[j], w2[j + 1], events@[j], me, n2[j]) by {
                    if j < k {
                        assert(w2[j] == ws[j] && w2[j + 1] == ws[j + 1] && n2[j] == ns[j]);
                    }
                }
                assert(n2.drop_last() =~= ns);
                ws = w2;
                ns = n2;
            }
            match n {
                Some(x) => {
                    let ghost before = notes@;
                    notes.push(x);
                    assert(w0.hits + notes@ =~= (w0.hits + before).push(x));
                },
                None => {},
            }
            k = k + 1;
        }
        self.entities.prune_stale(tick);
        proof {
            assert(self@ == (WorldView { slots: after_prune(ws.last().slots, tick), ..ws.last() }));
        }
        notes
    }
}

/// An event arrives in several snapshots and is taken in once: applied again right after, it
/// changes nothing and hands nothing back.
pub proof fn lemma_events_apply_once<E: Copy, L, H, O, Z>(
    w0: WorldView<E, L, H, O, Z>,
    w1: WorldView<E, L, H, O, Z>,
    w2: WorldView<E, L, H, O, Z>,
    ev: Event<L, H>,
    me: Option<u16>,
    n1: Option<HitNote<L, H>>,
    n2: Option<HitNote<L, H>>,
)
    requires
        w0.ledger.seen.len() <= SEEN_CAP,
        event_step(w0, w1, ev, me, n1),
        event_step(w1, w2, ev, me, n2),
    ensures
        w2 == w1,
        n2 is None,
{
    match ev {
        Event::BeamSpawn { id, .. } => lemma_taken_once(w0.ledger.seen, id),
        Event::Hit { id, .. } => lemma_taken_once(w0.ledger.seen, id),
        Event::Kill { id, .. } => lemma_taken_once(w0.ledger.seen, id),
        Event::Clash { id, .. } => lemma_taken_once(w0.ledger.seen, id),
        Event::Seizure { id, .. } => lemma_taken_once(w0.ledger.seen, id),
        _ => {},
    }
}

} // verus!
