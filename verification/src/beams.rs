//! The beams in flight that the client draws: its own shots, drawn the moment they are fired and
//! confirmed when the server's spawn event comes back with the same shot number; everyone's shots
//! from the spawn events; and the beam that a hit stops. Each beam flies a straight line at constant
//! speed from the tick it left the muzzle; what drawing needs of it (its weapon, where it started,
//! how fast it goes) rides along untouched.

use vstd::prelude::*;

verus! {

/// How long (ticks) a shot of this client's own stays on show unconfirmed.
pub const UNCONFIRMED_TICKS: u32 = 45;

/// A beam in flight.
#[derive(Clone, Copy, Debug)]
pub struct Beam<L> {
    /// The server's id (0 until an own shot is confirmed).
    pub id: u16,
    pub shooter: u16,
    /// The tick it left the muzzle.
    pub spawn_tick: u32,
    /// How many ticks it flies.
    pub ttl_ticks: u32,
    /// Drawn by the shooter's own client before the server confirmed it.
    pub predicted: bool,
    pub shot_seq: u8,
    /// What drawing needs of it.
    pub look: L,
}

/// Whether the beam is in flight at tick `t` (from the tick before its spawn, for a hit that
/// arrives with the shot).
pub open spec fn alive_at<L>(b: Beam<L>, t: int) -> bool {
    b.spawn_tick - 1 <= t <= b.spawn_tick + b.ttl_ticks
}

/// Whether the beam is still drawn at time `t`: its flight is not over, and an own shot is not
/// left unconfirmed for longer than [`UNCONFIRMED_TICKS`].
pub open spec fn on_show<L>(b: Beam<L>, t: int) -> bool {
    t <= b.spawn_tick + b.ttl_ticks && !(b.predicted && t > b.spawn_tick + UNCONFIRMED_TICKS)
}

/// An own shot waiting for the server's word on shot `seq`.
pub open spec fn awaits<L>(b: Beam<L>, seq: u8) -> bool {
    b.predicted && b.shot_seq == seq
}

/// A beam of `shooter` in flight at tick `t`.
pub open spec fn struck_by<L>(b: Beam<L>, shooter: u16, t: u32) -> bool {
    b.shooter == shooter && alive_at(b, t as int)
}

/// What a search picks: an own shot awaiting word on shot `seq`, or else a beam of `shooter` in
/// flight at tick `t`.
pub open spec fn wanted<L>(b: Beam<L>, seq: Option<u8>, shooter: u16, t: u32) -> bool {
    match seq {
        Some(s) => awaits(b, s),
        None => struck_by(b, shooter, t),
    }
}

/// Own shots awaiting word on shot `seq`.
pub open spec fn awaiting<L>(seq: u8) -> spec_fn(Beam<L>) -> bool {
    |b: Beam<L>| awaits(b, seq)
}

/// Beams of `shooter` in flight at tick `t`.
pub open spec fn striking<L>(shooter: u16, t: u32) -> spec_fn(Beam<L>) -> bool {
    |b: Beam<L>| struck_by(b, shooter, t)
}

/// Beams still drawn at time `t`.
pub open spec fn showing<L>(t: int) -> spec_fn(Beam<L>) -> bool {
    |b: Beam<L>| on_show(b, t)
}

/// `k` is the first place in `s` where `p` holds.
pub open spec fn first_where<L>(s: Seq<Beam<L>>, p: spec_fn(Beam<L>) -> bool, k: int) -> bool {
    &&& 0 <= k < s.len()
    &&& p(s[k])
    &&& forall|j: int| 0 <= j < k ==> !p(#[trigger] s[j])
}

/// Whether `p` holds somewhere in `s`.
pub open spec fn somewhere<L>(s: Seq<Beam<L>>, p: spec_fn(Beam<L>) -> bool) -> bool {
    exists|k: int| 0 <= k < s.len() && #[trigger] p(s[k])
}

/// The spawn event `id` for a beam of `shooter` (shot `shot_seq`, fired at `tick`, flying
/// `ttl_ticks`) took the beams from `s0` to `s1`, with `confirmed` telling whether it confirmed an
/// own shot of this client (`me`): the first own shot awaiting word on that number is confirmed
/// under the server's id; otherwise the beam joins.
pub open spec fn spawn_step<L>(
    s0: Seq<Beam<L>>,
    s1: Seq<Beam<L>>,
    confirmed: bool,
    id: u16,
    shooter: u16,
    shot_seq: u8,
    tick: u32,
    ttl_ticks: u32,
    look: L,
    me: Option<u16>,
) -> bool {
    &&& confirmed == (me == Some(shooter) && somewhere(s0, awaiting(shot_seq)))
    &&& confirmed ==> exists|k: int|
        first_where(s0, awaiting(shot_seq), k) && s1 == s0.update(k, Beam { id, predicted: false, ..s0[k] })
    &&& !confirmed ==> s1 == s0.push(
        Beam { id, shooter, spawn_tick: tick, ttl_ticks, predicted: false, shot_seq, look },
    )
}

/// A hit at `tick` by `shooter` took the beams from `s0` to `s1`, handing back `r`: when the
/// weapon shoots beams, the first of the shooter's beams in flight then is the one taken out.
pub open spec fn hit_step<L>(
    s0: Seq<Beam<L>>,
    s1: Seq<Beam<L>>,
    r: Option<Beam<L>>,
    shooter: u16,
    tick: u32,
    beam_weapon: bool,
) -> bool {
    match r {
        Some(b) => beam_weapon && exists|k: int|
            first_where(s0, striking(shooter, tick), k) && b == s0[k] && s1 == s0.remove(k),
        None => s1 == s0 && (beam_weapon ==> !somewhere(s0, striking(shooter, tick))),
    }
}

/// The beams in flight, oldest first.
pub struct Beams<L> {
    list: Vec<Beam<L>>,
}

impl<L> View for Beams<L> {
    type V = Seq<Beam<L>>;

    closed spec fn view(&self) -> Seq<Beam<L>> {
        self.list@
    }
}

impl<L: Copy> Beams<L> {
    /// None in flight.
    pub fn new() -> (b: Self)
        ensures
            b@ == Seq::<Beam<L>>::empty(),
    {
        Beams { list: Vec::new() }
    }

    /// How many are in flight.
    pub fn len(&self) -> (n: usize)
        ensures
            n == self@.len(),
    {
        self.list.len()
    }

    /// The `k`-th, oldest first.
    pub fn get(&self, k: usize) -> (b: Beam<L>)
        requires
            k < self@.len(),
        ensures
            b == self@[k as int],
    {
        self.list[k]
    }

    /// The first beam that `wanted` picks, if any.
    fn find(&self, seq: Option<u8>, shooter: u16, t: u32) -> (r: Option<usize>)
        ensures
            match r {
                Some(k) => k < self@.len() && wanted(self@[k as int], seq, shooter, t) && forall|j: int|
                    0 <= j < k ==> !wanted(#[trigger] self@[j], seq, shooter, t),
                None => forall|j: int| 0 <= j < self@.len() ==> !wanted(#[trigger] self@[j], seq, shooter, t),
            },
    {
        let mut k: usize = 0;
        while k < self.list.len()
            invariant
                k <= self.list@.len(),
                forall|j: int| 0 <= j < k ==> !wanted(#[trigger] self.list@[j], seq, shooter, t),
            decreases self.list@.len() - k,
        {
            let b = self.list[k];
            let hit = match seq {
                Some(s) => b.predicted && b.shot_seq == s,
                None => b.shooter == shooter && (t as u64) + 1 >= b.spawn_tick as u64 && (t as u64)
                    <= b.spawn_tick as u64 + b.ttl_ticks as u64,
            };
            if hit {
                return Some(k);
            }
            k = k + 1;
        }
        None
    }

    /// This client's own shot `shot_seq`, fired at `tick` and flying `ttl_ticks`, drawn at once.
    pub fn predict(&mut self, shooter: u16, shot_seq: u8, tick: u32, ttl_ticks: u32, look: L)
        ensures
            final(self)@ == old(self)@.push(
                Beam { id: 0, shooter, spawn_tick: tick, ttl_ticks, predicted: true, shot_seq, look },
            ),
    {
        self.list.push(Beam { id: 0, shooter, spawn_tick: tick, ttl_ticks, predicted: true, shot_seq, look });
    }

    /// The server's spawn event `id` for a beam of `shooter` (shot `shot_seq`, fired at `tick`,
    /// flying `ttl_ticks`); `me` is this client's slot. An own shot still drawn unconfirmed under
    /// that number is confirmed and keeps being drawn (the first such, if several wait); otherwise
    /// the beam joins. Returns whether it confirmed an own shot.
    pub fn spawned(
        &mut self,
        id: u16,
        shooter: u16,
        shot_seq: u8,
        tick: u32,
        ttl_ticks: u32,
        look: L,
        me: Option<u16>,
    ) -> (confirmed: bool)
        ensures
            spawn_step(old(self)@, final(self)@, confirmed, id, shooter, shot_seq, tick, ttl_ticks, look, me),
    {
        if me == Some(shooter) {
            if let Some(k) = self.find(Some(shot_seq), shooter, tick) {
                proof {
                    let q = awaiting::<L>(shot_seq);
                    assert(q(self@[k as int]));
                    assert forall|j: int| 0 <= j < k implies !q(#[trigger] self@[j]) by {
                        assert(!wanted(self@[j], Some(shot_seq), shooter, tick));
                    }
                    assert(first_where(self@, q, k as int));
                }
                let mut b = self.list[k];
                b.predicted = false;
                b.id = id;
                self.list.set(k, b);
                return true;
            } else {
                proof {
                    let q = awaiting::<L>(shot_seq);
                    assert forall|j: int| 0 <= j < self@.len() implies !q(#[trigger] self@[j]) by {
                        assert(!wanted(self@[j], Some(shot_seq), shooter, tick));
                    }
                }
            }
        }
        self.list.push(Beam { id, shooter, spawn_tick: tick, ttl_ticks, predicted: false, shot_seq, look });
        false
    }

    /// A hit at `tick` by `shooter`: when the weapon shoots beams, the first of its beams in flight
    /// then stops being drawn, and is handed back (its line places the sparks).
    pub fn hit(&mut self, shooter: u16, tick: u32, beam_weapon: bool) -> (r: Option<Beam<L>>)
        ensures
            hit_step(old(self)@, final(self)@, r, shooter, tick, beam_weapon),
    {
        if !beam_weapon {
            return None;
        }
        match self.find(None, shooter, tick) {
            Some(k) => {
                let b = self.list.remove(k);
                Some(b)
            },
            None => None,
        }
    }

    /// Drops the beams no longer drawn at time `t` (`t_ceil`: the smallest whole tick not before
    /// it), keeping the order of the rest.
    pub fn prune(&mut self, t_ceil: i64)
        ensures
            final(self)@ == old(self)@.filter(showing(t_ceil as int)),
    {
        let ghost p = showing::<L>(t_ceil as int);
        let ghost s = self.list@;
        let mut kept: Vec<Beam<L>> = Vec::new();
        let mut k: usize = 0;
        while k < self.list.len()
            invariant
                self.list@ == s,
                k <= s.len(),
                kept@ == s.take(k as int).filter(p),
                p == showing::<L>(t_ceil as int),
            decreases s.len() - k,
        {
            let b = self.list[k];
            let end = b.spawn_tick as i64 + b.ttl_ticks as i64;
            let keep = t_ceil <= end && !(b.predicted && t_ceil > b.spawn_tick as i64 + UNCONFIRMED_TICKS as i64);
            proof {
                reveal(Seq::filter);
                assert(s.take(k + 1).drop_last() =~= s.take(k as int));
                assert(s.take(k + 1).last() == b);
                assert(keep == p(b));
            }
            if keep {
                kept.push(b);
            }
            k = k + 1;
        }
        assert(s.take(s.len() as int) =~= s);
        self.list = kept;
    }
}

/// What a spawn event does to the beams: a confirmation keeps every beam and their number, and
/// turns exactly one unconfirmed own shot with that shot number into the server's beam of that id,
/// leaving its flight as drawn; otherwise exactly one beam, the spawned one, joins at the end.
pub proof fn lemma_spawn_keeps_the_rest<L>(
    s0: Seq<Beam<L>>,
    s1: Seq<Beam<L>>,
    confirmed: bool,
    id: u16,
    shooter: u16,
    shot_seq: u8,
    tick: u32,
    ttl_ticks: u32,
    look: L,
    me: Option<u16>,
)
    requires
        spawn_step(s0, s1, confirmed, id, shooter, shot_seq, tick, ttl_ticks, look, me),
    ensures
        confirmed ==> me == Some(shooter) && s1.len() == s0.len() && exists|k: int|
            {
                &&& 0 <= k < s0.len()
                &&& s0[k].predicted && s0[k].shot_seq == shot_seq
                &&& !s1[k].predicted && s1[k].id == id
                &&& s1[k].spawn_tick == s0[k].spawn_tick && s1[k].shooter == s0[k].shooter
                &&& forall|j: int| 0 <= j < s0.len() && j != k ==> s1[j] == s0[j]
            },
        !confirmed ==> s1.len() == s0.len() + 1 && s1.last().id == id && s1.last().shooter == shooter
            && !s1.last().predicted && s1.last().spawn_tick == tick && s1.last().ttl_ticks == ttl_ticks
            && s1.drop_last() == s0,
        me != Some(shooter) ==> !confirmed,
{
    if confirmed {
        let k = choose|k: int| first_where(s0, awaiting(shot_seq), k) && s1 == s0.update(k, Beam { id, predicted: false, ..s0[k] });
        assert(awaiting::<L>(shot_seq)(s0[k]));
    } else {
        assert(s1.drop_last() =~= s0);
    }
}

/// What a hit does to the beams: the beam taken out was the shooter's and in flight at the hit's
/// tick, and it was the only one taken out, the rest keeping their order; no beam of the shooter in
/// flight then means nothing is taken out.
pub proof fn lemma_hit_takes_one_of_the_shooters<L>(
    s0: Seq<Beam<L>>,
    s1: Seq<Beam<L>>,
    r: Option<Beam<L>>,
    shooter: u16,
    tick: u32,
    beam_weapon: bool,
)
    requires
        hit_step(s0, s1, r, shooter, tick, beam_weapon),
    ensures
        r matches Some(b) ==> {
            &&& beam_weapon
            &&& b.shooter == shooter
            &&& b.spawn_tick - 1 <= tick <= b.spawn_tick + b.ttl_ticks
            &&& s1.len() == s0.len() - 1
            &&& exists|k: int| 0 <= k < s0.len() && s0[k] == b && s1 == s0.subrange(0, k) + s0.subrange(k + 1, s0.len() as int)
        },
        r is None ==> s1 == s0,
        !beam_weapon ==> r is None,
{
    if let Some(b) = r {
        let k = choose|k: int| first_where(s0, striking(shooter, tick), k) && b == s0[k] && s1 == s0.remove(k);
        assert(striking::<L>(shooter, tick)(s0[k]));
        assert(s0.remove(k) =~= s0.subrange(0, k) + s0.subrange(k + 1, s0.len() as int));
    }
}

/// Pruning keeps, in order, exactly the beams still on show: none past its flight, and no own shot
/// left unconfirmed past [`UNCONFIRMED_TICKS`].
pub proof fn lemma_prune_keeps_what_shows<L>(s: Seq<Beam<L>>, t: int, b: Beam<L>)
    ensures
        s.filter(showing(t)).contains(b) <==> s.contains(b) && t <= b.spawn_tick + b.ttl_ticks && !(
        b.predicted && t > b.spawn_tick + UNCONFIRMED_TICKS),
        s.filter(showing(t)).len() <= s.len(),
{
    s.lemma_filter_len(showing(t));
    if s.filter(showing(t)).contains(b) {
        let i = choose|i: int| 0 <= i < s.filter(showing(t)).len() && s.filter(showing(t))[i] == b;
        s.lemma_filter_pred(showing(t), i);
        s.lemma_filter_contains_rev(showing(t), b);
    }
    if s.contains(b) && on_show(b, t) {
        let i = choose|i: int| 0 <= i < s.len() && s[i] == b;
        s.lemma_filter_contains(showing(t), i);
    }
}

} // verus!
