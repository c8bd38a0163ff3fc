//! The client's bookkeeping of the sector's events: which events it has already taken in (each
//! arrives in several snapshots), the kill feed, which hulk each destroyed suit became, and the
//! pilot's own tallies.

use std::collections::HashMap;
use std::collections::VecDeque;
use vstd::prelude::*;

verus! {

broadcast use vstd::std_specs::hash::group_hash_axioms;

/// How many event ids are remembered for deduplication.
pub const SEEN_CAP: usize = 512;
/// How many lines the kill feed keeps.
pub const FEED_CAP: usize = 8;

/// Kill feed and other notices.
#[derive(Clone, Copy, Debug, PartialEq, Eq, Structural)]
pub enum FeedLine {
    Kill { tick: u32, victim: u16, killer: u16 },
    Seizure { tick: u32, pilot: u16, active: bool },
    Clash { tick: u32, a: u16, b: u16 },
}

/// What the ledger holds, as mathematical values.
pub struct LedgerView {
    /// Event ids taken in, oldest first.
    pub seen: Seq<u16>,
    /// The kill feed, oldest first.
    pub feed: Seq<FeedLine>,
    /// The hulk each destroyed suit became, by slot.
    pub hulks: Map<u16, u16>,
    pub my_hits: u32,
    pub my_kills: u32,
    pub my_deaths: u32,
    pub hits_taken: u32,
}

/// The client's record of the events it has applied.
pub struct Ledger {
    seen: VecDeque<u16>,
    feed: VecDeque<FeedLine>,
    hulks: HashMap<u16, u16>,
    my_hits: u32,
    my_kills: u32,
    my_deaths: u32,
    hits_taken: u32,
}

/// Keeps the newest `cap` elements of a sequence.
pub open spec fn newest<T>(s: Seq<T>, cap: int) -> Seq<T> {
    if s.len() > cap {
        s.subrange(s.len() - cap, s.len() as int)
    } else {
        s
    }
}

/// Taking in event `id`: it joins the remembered ids unless it is already there; the oldest is
/// forgotten past [`SEEN_CAP`].
pub open spec fn seen_after(seen: Seq<u16>, id: u16) -> Seq<u16> {
    if seen.contains(id) {
        seen
    } else {
        newest(seen.push(id), SEEN_CAP as int)
    }
}

/// The counter plus one, when the condition holds.
pub open spec fn bump(n: u32, cond: bool) -> u32 {
    if cond {
        (n + 1) as u32
    } else {
        n
    }
}

/// The ledger after event `id`, when new, is taken in (nothing else changes).
pub open spec fn after_first(l: LedgerView, id: u16) -> LedgerView {
    LedgerView { seen: seen_after(l.seen, id), ..l }
}

/// The ledger after hit `id` on `target` by `shooter`: when new, taken in and counted for this
/// pilot (`me`).
pub open spec fn after_hit(l: LedgerView, id: u16, target: u16, shooter: u16, me: Option<u16>) -> LedgerView {
    if l.seen.contains(id) {
        l
    } else {
        LedgerView {
            seen: seen_after(l.seen, id),
            my_hits: bump(l.my_hits, me == Some(shooter)),
            hits_taken: bump(l.hits_taken, me == Some(target)),
            ..l
        }
    }
}

/// The ledger after kill `id` (`victim` destroyed by `killer`, leaving `hulk` or nothing): when
/// new, taken in, the hulk recorded, the kill or death counted for this pilot (`me`), and a feed
/// line added.
pub open spec fn after_kill(
    l: LedgerView,
    id: u16,
    tick: u32,
    victim: u16,
    killer: u16,
    hulk: Option<u16>,
    me: Option<u16>,
) -> LedgerView {
    if l.seen.contains(id) {
        l
    } else {
        LedgerView {
            seen: seen_after(l.seen, id),
            hulks: match hulk {
                Some(h) => l.hulks.insert(victim, h),
                None => l.hulks.remove(victim),
            },
            my_kills: bump(l.my_kills, me == Some(killer) && killer != victim),
            my_deaths: bump(l.my_deaths, me == Some(victim)),
            feed: newest(l.feed.push(FeedLine::Kill { tick, victim, killer }), FEED_CAP as int),
            ..l
        }
    }
}

/// The ledger after an event `id` that only adds `line` to the feed: when new, taken in and the
/// line added.
pub open spec fn after_notice(l: LedgerView, id: u16, line: FeedLine) -> LedgerView {
    if l.seen.contains(id) {
        l
    } else {
        LedgerView {
            seen: seen_after(l.seen, id),
            feed: newest(l.feed.push(line), FEED_CAP as int),
            ..l
        }
    }
}

impl View for Ledger {
    type V = LedgerView;

    closed spec fn view(&self) -> LedgerView {
        LedgerView {
            seen: self.seen@,
            feed: self.feed@,
            hulks: self.hulks@,
            my_hits: self.my_hits,
            my_kills: self.my_kills,
            my_deaths: self.my_deaths,
            hits_taken: self.hits_taken,
        }
    }
}

impl Ledger {
    /// At most [`SEEN_CAP`] ids, none twice; at most [`FEED_CAP`] lines.
    pub open spec fn wf(&self) -> bool {
        &&& self@.seen.len() <= SEEN_CAP
        &&& self@.seen.no_duplicates()
        &&& self@.feed.len() <= FEED_CAP
    }

    /// Tallies below their limit, so that one more event can be counted.
    pub open spec fn room(&self) -> bool {
        &&& self@.my_hits < u32::MAX
        &&& self@.my_kills < u32::MAX
        &&& self@.my_deaths < u32::MAX
        &&& self@.hits_taken < u32::MAX
    }

    /// Nothing seen yet.
    pub fn new() -> (l: Ledger)
        ensures
            l.wf(),
            l@.seen == Seq::<u16>::empty(),
            l@.feed == Seq::<FeedLine>::empty(),
            l@.hulks == Map::<u16, u16>::empty(),
            l@.my_hits == 0 && l@.my_kills == 0 && l@.my_deaths == 0 && l@.hits_taken == 0,
    {
        let l = Ledger {
            seen: VecDeque::new(),
            feed: VecDeque::new(),
            hulks: HashMap::new(),
            my_hits: 0,
            my_kills: 0,
            my_deaths: 0,
            hits_taken: 0,
        };
        assert(l@.hulks =~= Map::<u16, u16>::empty());
        l
    }

    /// Hits landed by this pilot.
    pub fn my_hits(&self) -> (n: u32)
        ensures
            n == self@.my_hits,
    {
        self.my_hits
    }

    /// Kills by this pilot (not counting its own death).
    pub fn my_kills(&self) -> (n: u32)
        ensures
            n == self@.my_kills,
    {
        self.my_kills
    }

    /// This pilot's deaths.
    pub fn my_deaths(&self) -> (n: u32)
        ensures
            n == self@.my_deaths,
    {
        self.my_deaths
    }

    /// Hits this pilot took.
    pub fn hits_taken(&self) -> (n: u32)
        ensures
            n == self@.hits_taken,
    {
        self.hits_taken
    }

    /// How many feed lines there are.
    pub fn feed_len(&self) -> (n: usize)
        ensures
            n == self@.feed.len(),
    {
        self.feed.len()
    }

    /// The `k`-th feed line, oldest first.
    pub fn feed_line(&self, k: usize) -> (f: FeedLine)
        requires
            k < self@.feed.len(),
        ensures
            f == self@.feed[k as int],
    {
        self.feed[k]
    }

    /// The hulk that the suit in `slot` became, if it is known.
    pub fn hulk_of(&self, slot: u16) -> (h: Option<u16>)
        ensures
            h == (if self@.hulks.contains_key(slot) {
                Some(self@.hulks[slot])
            } else {
                None
            }),
    {
        match self.hulks.get(&slot) {
            Some(h) => Some(*h),
            None => None,
        }
    }

    /// Whether event `id` is new, taking it in if it is.
    pub fn first_time(&mut self, id: u16) -> (new: bool)
        requires
            old(self).wf(),
        ensures
            final(self).wf(),
            new == !old(self)@.seen.contains(id),
            final(self)@ == after_first(old(self)@, id),
    {
        let mut i: usize = 0;
        while i < self.seen.len()
            invariant
                *self == *old(self),
                old(self).wf(),
                0 <= i <= self.seen@.len(),
                forall|j: int| 0 <= j < i ==> self.seen@[j] != id,
            decreases self.seen@.len() - i,
        {
            if self.seen[i] == id {
                return false;
            }
            i = i + 1;
        }
        let ghost s = self.seen@;
        self.seen.push_back(id);
        if self.seen.len() > SEEN_CAP {
            let _ = self.seen.pop_front();
        }
        proof {
            assert(!s.contains(id));
            let p = s.push(id);
            assert(p.no_duplicates()) by {
                assert forall|a: int, b: int| 0 <= a < b < p.len() implies p[a] != p[b] by {
                    if b == p.len() - 1 {
                        assert(p[a] == s[a]);
                    }
                }
            }
            assert(self.seen@ =~= newest(p, SEEN_CAP as int));
        }
        true
    }

    /// Adds a line to the kill feed, which keeps the newest [`FEED_CAP`].
    pub fn push_feed(&mut self, line: FeedLine)
        requires
            old(self).wf(),
        ensures
            final(self).wf(),
            final(self)@ == (LedgerView {
                feed: newest(old(self)@.feed.push(line), FEED_CAP as int),
                ..old(self)@
            }),
    {
        let ghost p = self.feed@.push(line);
        self.feed.push_back(line);
        while self.feed.len() > FEED_CAP
            invariant
                self.seen == old(self).seen,
                self.hulks == old(self).hulks,
                self.my_hits == old(self).my_hits,
                self.my_kills == old(self).my_kills,
                self.my_deaths == old(self).my_deaths,
                self.hits_taken == old(self).hits_taken,
                self.feed@.len() <= FEED_CAP + 1,
                self.feed@ == newest(p, FEED_CAP as int) || self.feed@ == p,
                p.len() <= FEED_CAP + 1,
            decreases self.feed@.len(),
        {
            let _ = self.feed.pop_front();
            assert(self.feed@ =~= newest(p, FEED_CAP as int));
        }
        assert(self.feed@ =~= newest(p, FEED_CAP as int));
    }

    /// A hit, event `id`, on `target` by `shooter`; `me` is this pilot's slot. Counts it for this
    /// pilot when it is new. Returns whether it was new.
    pub fn on_hit(&mut self, id: u16, target: u16, shooter: u16, me: Option<u16>) -> (new: bool)
        requires
            old(self).wf(),
            old(self).room(),
        ensures
            final(self).wf(),
            new == !old(self)@.seen.contains(id),
            final(self)@ == after_hit(old(self)@, id, target, shooter, me),
    {
        if !self.first_time(id) {
            return false;
        }
        if me == Some(shooter) {
            self.my_hits = self.my_hits + 1;
        }
        if me == Some(target) {
            self.hits_taken = self.hits_taken + 1;
        }
        true
    }

    /// A kill, event `id`: `victim` destroyed by `killer`, leaving `hulk` (or nothing). When new,
    /// it records the hulk, counts the kill or death for this pilot (`me`), and adds a feed line.
    pub fn on_kill(
        &mut self,
        id: u16,
        tick: u32,
        victim: u16,
        killer: u16,
        hulk: Option<u16>,
        me: Option<u16>,
    ) -> (new: bool)
        requires
            old(self).wf(),
            old(self).room(),
        ensures
            final(self).wf(),
            new == !old(self)@.seen.contains(id),
            final(self)@ == after_kill(old(self)@, id, tick, victim, killer, hulk, me),
    {
        if !self.first_time(id) {
            return false;
        }
        match hulk {
            Some(h) => {
                let _ = self.hulks.insert(victim, h);
            },
            None => {
                let _ = self.hulks.remove(&victim);
            },
        }
        if me == Some(killer) && killer != victim {
            self.my_kills = self.my_kills + 1;
        }
        if me == Some(victim) {
            self.my_deaths = self.my_deaths + 1;
        }
        self.push_feed(FeedLine::Kill { tick, victim, killer });
        true
    }

    /// A clash of blades between `a` and `b`, event `id`: a feed line when new.
    pub fn on_clash(&mut self, id: u16, tick: u32, a: u16, b: u16) -> (new: bool)
        requires
            old(self).wf(),
        ensures
            final(self).wf(),
            new == !old(self)@.seen.contains(id),
            final(self)@ == after_notice(old(self)@, id, FeedLine::Clash { tick, a, b }),
    {
        if self.first_time(id) {
            self.push_feed(FeedLine::Clash { tick, a, b });
            true
        } else {
            false
        }
    }

    /// The ZERO System seizing (or releasing) `pilot`, event `id`: a feed line when new.
    pub fn on_seizure(&mut self, id: u16, tick: u32, pilot: u16, active: bool) -> (new: bool)
        requires
            old(self).wf(),
        ensures
            final(self).wf(),
            new == !old(self)@.seen.contains(id),
            final(self)@ == after_notice(old(self)@, id, FeedLine::Seizure { tick, pilot, active }),
    {
        if self.first_time(id) {
            self.push_feed(FeedLine::Seizure { tick, pilot, active });
            true
        } else {
            false
        }
    }
}

/// An event is taken in once: right after it is taken in, it is no longer new.
pub proof fn lemma_taken_once(seen: Seq<u16>, id: u16)
    requires
        seen.len() <= SEEN_CAP,
    ensures
        seen_after(seen, id).contains(id),
{
    if !seen.contains(id) {
        let p = seen.push(id);
        let s = newest(p, SEEN_CAP as int);
        assert(s[s.len() - 1] == id);
    }
}

/// The feed keeps the newest lines, in order: after a push, the last line is the one pushed and
/// the feed never holds more than [`FEED_CAP`].
pub proof fn lemma_feed_newest(feed: Seq<FeedLine>, line: FeedLine)
    requires
        feed.len() <= FEED_CAP,
    ensures
        newest(feed.push(line), FEED_CAP as int).len() <= FEED_CAP,
        newest(feed.push(line), FEED_CAP as int).last() == line,
{
}

/// A new kill sets the victim's hulk to the one it left, or clears it when it left none; no other
/// suit's hulk changes; the kill is counted for this pilot only when it killed another, and the
/// death only when it was the victim. A kill already taken in changes nothing.
pub proof fn lemma_kill_records_the_hulk(
    l: LedgerView,
    id: u16,
    tick: u32,
    victim: u16,
    killer: u16,
    hulk: Option<u16>,
    me: Option<u16>,
    other: u16,
)
    requires
        l.my_kills < u32::MAX,
        l.my_deaths < u32::MAX,
    ensures
        ({
            let a = after_kill(l, id, tick, victim, killer, hulk, me);
            &&& l.seen.contains(id) ==> a == l
            &&& !l.seen.contains(id) ==> {
                &&& a.hulks.contains_key(victim) == (hulk is Some)
                &&& hulk matches Some(h) ==> a.hulks[victim] == h
                &&& other != victim ==> a.hulks.contains_key(other) == l.hulks.contains_key(other)
                    && (l.hulks.contains_key(other) ==> a.hulks[other] == l.hulks[other])
                &&& a.my_kills == l.my_kills + (if me == Some(killer) && killer != victim { 1int } else { 0int })
                &&& a.my_deaths == l.my_deaths + (if me == Some(victim) { 1int } else { 0int })
                &&& a.my_hits == l.my_hits && a.hits_taken == l.hits_taken
                &&& a.feed.last() == FeedLine::Kill { tick, victim, killer }
            }
        }),
{
}

/// A new hit is counted once for this pilot: as landed when it shot, as taken when it was hit,
/// nothing else changes but the remembered ids; a hit already taken in changes nothing.
pub proof fn lemma_hit_counts_for_me(l: LedgerView, id: u16, target: u16, shooter: u16, me: Option<u16>)
    requires
        l.seen.len() <= SEEN_CAP,
        l.my_hits < u32::MAX,
        l.hits_taken < u32::MAX,
    ensures
        ({
            let a = after_hit(l, id, target, shooter, me);
            &&& l.seen.contains(id) ==> a == l
            &&& !l.seen.contains(id) ==> {
                &&& a.my_hits == l.my_hits + (if me == Some(shooter) { 1int } else { 0int })
                &&& a.hits_taken == l.hits_taken + (if me == Some(target) { 1int } else { 0int })
                &&& a.my_kills == l.my_kills && a.my_deaths == l.my_deaths
                &&& a.feed == l.feed && a.hulks == l.hulks
                &&& a.seen.contains(id)
            }
        }),
{
    if !l.seen.contains(id) {
        lemma_taken_once(l.seen, id);
    }
}

} // verus!
