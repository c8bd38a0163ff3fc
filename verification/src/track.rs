//! The samples received of one remote entity: the newest [`SAMPLES`] states, by tick, oldest
//! first. Drawing picks the samples round the time it shows.

use vstd::prelude::*;

verus! {

/// How many samples a track keeps.
pub const SAMPLES: usize = 8;

/// One remote entity's recent states.
pub struct EntityTrack<E> {
    samples: Vec<(u32, E)>,
    n: usize,
    head: usize,
    latest: E,
    latest_tick: u32,
}

/// Ticks strictly rising along a window.
pub open spec fn rising<E>(w: Seq<(u32, E)>) -> bool {
    forall|i: int, j: int| 0 <= i < j < w.len() ==> w[i].0 < w[j].0
}

/// Which sample is drawn at time `t`: the newest at or before it, or the oldest when all are after.
pub open spec fn drawn_index<E>(w: Seq<(u32, E)>, t: int) -> int
    decreases w.len(),
{
    if w.len() <= 1 {
        0
    } else if w.last().0 <= t {
        w.len() - 1
    } else {
        drawn_index(w.drop_last(), t)
    }
}

proof fn lemma_drawn_index<E>(w: Seq<(u32, E)>, t: int, k: int)
    requires
        rising(w),
        0 <= k < w.len(),
        k == 0 || w[k].0 <= t,
        k + 1 == w.len() || w[k + 1].0 > t,
    ensures
        drawn_index(w, t) == k,
    decreases w.len(),
{
    if w.len() > 1 {
        if w.last().0 <= t {
            if k + 1 < w.len() {
                assert(w[k + 1].0 <= w.last().0);
            }
        } else {
            let v = w.drop_last();
            assert(rising(v));
            lemma_drawn_index(v, t, k);
        }
    }
}

/// The window of a ring of samples, oldest first.
pub open spec fn ring_window<E>(samples: Seq<(u32, E)>, head: int, n: int) -> Seq<(u32, E)> {
    Seq::new(n as nat, |k: int| samples[(head + SAMPLES - n + k) % (SAMPLES as int)])
}

proof fn lemma_window_push<E>(
    old_samples: Seq<(u32, E)>,
    new_samples: Seq<(u32, E)>,
    h: int,
    n: int,
    tick: u32,
    e: E,
)
    requires
        old_samples.len() == SAMPLES,
        0 <= h < SAMPLES,
        1 <= n <= SAMPLES,
        new_samples == old_samples.update(h, (tick, e)),
    ensures
        ring_window(new_samples, (h + 1) % 8, if n < 8 { n + 1 } else { 8 }) =~= if n < 8 {
            ring_window(old_samples, h, n).push((tick, e))
        } else {
            ring_window(old_samples, h, n).drop_first().push((tick, e))
        },
{
    let w = ring_window(old_samples, h, n);
    let nh = (h + 1) % 8;
    let nn = if n < 8 { n + 1 } else { 8 };
    let nw = if n < 8 { w.push((tick, e)) } else { w.drop_first().push((tick, e)) };
    let got = ring_window(new_samples, nh, nn);
    assert forall|k: int| 0 <= k < nw.len() implies #[trigger] got[k] == nw[k] by {
        if n < 8 {
            if k < n {
                assert((nh + 8 - nn + k) % 8 == (h + 8 - n + k) % 8);
                assert((h + 8 - n + k) % 8 != h);
            } else {
                assert((nh + 8 - nn + k) % 8 == h);
            }
        } else {
            if k < 7 {
                assert((nh + 8 - nn + k) % 8 == (h + 8 - n + (k + 1)) % 8);
                assert((h + 8 - n + (k + 1)) % 8 != h);
            } else {
                assert((nh + 8 - nn + k) % 8 == h);
            }
        }
    }
}

impl<E: Copy> EntityTrack<E> {
    /// The samples held, oldest first.
    pub closed spec fn window(&self) -> Seq<(u32, E)> {
        ring_window(self.samples@, self.head as int, self.n as int)
    }

    /// The newest state received, and its tick.
    pub closed spec fn newest(&self) -> (u32, E) {
        (self.latest_tick, self.latest)
    }

    pub closed spec fn wf(&self) -> bool {
        &&& self.samples@.len() == SAMPLES
        &&& 1 <= self.n <= SAMPLES
        &&& self.head < SAMPLES
        &&& rising(self.window())
        &&& self.window().last() == (self.latest_tick, self.latest)
    }

    /// A track whose one sample is `e` at `tick`.
    pub fn new(tick: u32, e: E) -> (t: Self)
        ensures
            t.wf(),
            t.window() == seq![(tick, e)],
            t.newest() == (tick, e),
    {
        let mut samples: Vec<(u32, E)> = Vec::new();
        while samples.len() < SAMPLES
            invariant
                samples@.len() <= SAMPLES,
                forall|k: int| 0 <= k < samples@.len() ==> samples@[k] == (tick, e),
            decreases SAMPLES - samples@.len(),
        {
            samples.push((tick, e));
        }
        let t = EntityTrack { samples, n: 1, head: 1, latest: e, latest_tick: tick };
        assert(t.window() =~= seq![(tick, e)]);
        t
    }

    /// Adds the state at `tick`. Samples out of order or repeated are ignored; when the track is
    /// full the oldest goes.
    pub fn push(&mut self, tick: u32, e: E)
        requires
            old(self).wf(),
        ensures
            final(self).wf(),
            tick <= old(self).newest().0 ==> *final(self) == *old(self),
            tick > old(self).newest().0 ==> {
                &&& final(self).newest() == (tick, e)
                &&& final(self).window() == if old(self).window().len() < SAMPLES {
                    old(self).window().push((tick, e))
                } else {
                    old(self).window().drop_first().push((tick, e))
                }
            },
    {
        if tick <= self.latest_tick {
            return;
        }
        let ghost w = self.window();
        let ghost old_samples = self.samples@;
        let ghost h = self.head as int;
        let ghost n = self.n as int;
        self.samples.set(self.head, (tick, e));
        self.head = (self.head + 1) % SAMPLES;
        if self.n < SAMPLES {
            self.n = self.n + 1;
        }
        self.latest = e;
        self.latest_tick = tick;
        proof {
            let nw = if w.len() < SAMPLES {
                w.push((tick, e))
            } else {
                w.drop_first().push((tick, e))
            };
            lemma_window_push(old_samples, self.samples@, h, n, tick, e);
            assert(self.window() =~= nw);
            assert(rising(nw)) by {
                assert(w.last().0 < tick);
            }
        }
    }

    /// How many samples the track holds (at least one, at most [`SAMPLES`]).
    pub fn len(&self) -> (n: usize)
        requires
            self.wf(),
        ensures
            n == self.window().len(),
            1 <= n <= SAMPLES,
    {
        self.n
    }

    /// The `k`-th sample held, oldest first.
    pub fn get(&self, k: usize) -> (s: (u32, E))
        requires
            self.wf(),
            k < self.window().len(),
        ensures
            s == self.window()[k as int],
    {
        self.samples[(self.head + SAMPLES - self.n + k) % SAMPLES]
    }

    /// The newest state received.
    pub fn latest(&self) -> (e: E)
        ensures
            e == self.newest().1,
    {
        self.latest
    }

    /// The tick of the newest state received.
    pub fn latest_tick(&self) -> (t: u32)
        ensures
            t == self.newest().0,
    {
        self.latest_tick
    }

    /// The state of the newest sample at or before time `t` (ticks), so that it lines up with the
    /// pose drawn at `t`; before the oldest sample, the oldest. `t_floor` is the whole part of `t`
    /// (rounded down): a sample's tick lies after `t` exactly when it lies after `t_floor`.
    pub fn state_at(&self, t_floor: i64) -> (e: E)
        requires
            self.wf(),
        ensures
            e == self.window()[drawn_index(self.window(), t_floor as int)].1,
    {
        let ghost w = self.window();
        let mut best = self.get(0);
        let mut bk: usize = 0;
        let mut k: usize = 1;
        let mut done = false;
        while k < self.n && !done
            invariant
                self.wf(),
                w == self.window(),
                1 <= k <= w.len(),
                bk == k - 1,
                best == w[bk as int],
                bk == 0 || w[bk as int].0 <= t_floor,
                done ==> k < w.len() && w[k as int].0 > t_floor,
            decreases w.len() - k + if done { 0int } else { 1int },
        {
            let s = self.get(k);
            if s.0 as i64 > t_floor {
                done = true;
            } else {
                best = s;
                bk = k;
                k = k + 1;
            }
        }
        proof {
            lemma_drawn_index(w, t_floor as int, bk as int);
        }
        best.1
    }
}

/// The sample drawn at time `t` is the newest one at or before `t`: it is no later than `t`
/// (unless every sample is later, when the oldest is drawn), and every newer sample is later than
/// `t`.
pub proof fn lemma_drawn_is_newest_not_after<E>(w: Seq<(u32, E)>, t: int)
    requires
        rising(w),
        w.len() > 0,
    ensures
        0 <= drawn_index(w, t) < w.len(),
        w[0].0 <= t ==> w[drawn_index(w, t)].0 <= t,
        w[0].0 > t ==> drawn_index(w, t) == 0,
        forall|j: int| drawn_index(w, t) < j < w.len() ==> w[j].0 > t,
    decreases w.len(),
{
    if w.len() > 1 && w.last().0 > t {
        let v = w.drop_last();
        assert(rising(v));
        lemma_drawn_is_newest_not_after(v, t);
        assert forall|j: int| drawn_index(w, t) < j < w.len() implies w[j].0 > t by {
            if j < w.len() - 1 {
                assert(w[j] == v[j]);
            }
        }
    }
}

} // verus!
