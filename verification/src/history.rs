//! History of the commands this client sent, by tick (for prediction replay and redundancy).
//!
//! A ring of [`HISTORY`] slots: the command for tick `t` lives in slot `t % HISTORY` until a
//! command for a later tick that shares the slot replaces it.

use vstd::prelude::*;

verus! {

/// How many ticks of commands are kept.
pub const HISTORY: usize = 128;

/// Whether ticks `a` and `b` share a slot.
pub open spec fn same_slot(a: u32, b: u32) -> bool {
    a as int % HISTORY as int == b as int % HISTORY as int
}

/// The commands sent, by tick.
pub struct InputHistory<C> {
    slots: Vec<Option<(u32, C)>>,
    newest: u32,
}

impl<C: Copy> InputHistory<C> {
    /// Slots hold commands for ticks of their own residue, none newer than `newest`.
    pub closed spec fn wf(&self) -> bool {
        &&& self.slots@.len() == HISTORY
        &&& forall|k: int|
            0 <= k < HISTORY ==> match #[trigger] self.slots@[k] {
                Some((t, _)) => t as int % HISTORY as int == k && t <= self.newest,
                None => true,
            }
    }

    /// The newest tick a command was recorded for.
    pub closed spec fn newest_tick(&self) -> u32 {
        self.newest
    }

    /// The command recorded for tick `t`, if it is still held.
    pub closed spec fn lookup(&self, t: u32) -> Option<C> {
        match self.slots@[t as int % HISTORY as int] {
            Some((tk, c)) => if tk == t {
                Some(c)
            } else {
                None
            },
            None => None,
        }
    }

    /// An empty history.
    pub fn new() -> (h: Self)
        ensures
            h.wf(),
            h.newest_tick() == 0,
            forall|t: u32| h.lookup(t) is None,
    {
        let mut slots: Vec<Option<(u32, C)>> = Vec::new();
        while slots.len() < HISTORY
            invariant
                slots@.len() <= HISTORY,
                forall|k: int| 0 <= k < slots@.len() ==> slots@[k] is None,
            decreases HISTORY - slots@.len(),
        {
            slots.push(None);
        }
        InputHistory { slots, newest: 0 }
    }

    /// Records the command for `tick`. It replaces whatever its slot held; every other tick's
    /// command stays.
    pub fn push(&mut self, tick: u32, cmd: C)
        requires
            old(self).wf(),
        ensures
            final(self).wf(),
            final(self).newest_tick() == if tick > old(self).newest_tick() {
                tick
            } else {
                old(self).newest_tick()
            },
            recorded(*old(self), *final(self), tick, cmd),
    {
        let k = tick as usize % HISTORY;
        self.slots.set(k, Some((tick, cmd)));
        if tick > self.newest {
            self.newest = tick;
        }
    }

    /// The newest tick a command was recorded for (0 before any).
    pub fn newest(&self) -> (t: u32)
        ensures
            t == self.newest_tick(),
    {
        self.newest
    }

    /// The command recorded for `tick`, if it is still held.
    pub fn get(&self, tick: u32) -> (r: Option<C>)
        requires
            self.wf(),
        ensures
            r == self.lookup(tick),
    {
        let k = tick as usize % HISTORY;
        match self.slots[k] {
            Some((t, c)) => if t == tick {
                Some(c)
            } else {
                None
            },
            None => None,
        }
    }
}

/// Recording `cmd` for `tick` took the history from `before` to `after`: the tick gives back that
/// command, another tick of its slot gives back nothing, and every other tick what it did before.
pub open spec fn recorded<C: Copy>(before: InputHistory<C>, after: InputHistory<C>, tick: u32, cmd: C) -> bool {
    forall|u: u32|
        #[trigger] after.lookup(u) == if u == tick {
            Some(cmd)
        } else if same_slot(u, tick) {
            None
        } else {
            before.lookup(u)
        }
}

/// Histories `hs` where each next one is the one before with `cmds[i]` recorded for `ticks[i]`.
pub open spec fn pushes<C: Copy>(hs: Seq<InputHistory<C>>, ticks: Seq<u32>, cmds: Seq<C>) -> bool {
    &&& hs.len() == ticks.len() + 1
    &&& cmds.len() == ticks.len()
    &&& forall|i: int| 0 <= i < ticks.len() ==> #[trigger] recorded(hs[i], hs[i + 1], ticks[i], cmds[i])
}

/// The commands to replay after the server's state at tick `t`, up to tick `target`: those for
/// `t + 1`, `t + 2`, ... while the history holds them.
pub open spec fn replay_cmds<C: Copy>(h: InputHistory<C>, t: u32, target: u32) -> Seq<C>
    decreases target - t,
{
    if t >= target {
        seq![]
    } else {
        match h.lookup((t + 1) as u32) {
            Some(c) => seq![c] + replay_cmds(h, (t + 1) as u32, target),
            None => seq![],
        }
    }
}

/// The tick the replay reaches: `target`, or the first tick after `t` the history no longer holds.
pub open spec fn replay_end<C: Copy>(h: InputHistory<C>, t: u32, target: u32) -> u32
    decreases target - t,
{
    if t >= target {
        t
    } else {
        match h.lookup((t + 1) as u32) {
            Some(c) => replay_end(h, (t + 1) as u32, target),
            None => (t + 1) as u32,
        }
    }
}

impl<C: Copy> InputHistory<C> {
    /// The commands to replay after the server's state at `server_tick`, through the newest
    /// predicted tick `predicted` (nothing when the server is already there), and the tick the
    /// replay reaches.
    pub fn replay(&self, server_tick: u32, predicted: u32) -> (r: (Vec<C>, u32))
        requires
            self.wf(),
        ensures
            ({
                let target = if predicted > server_tick {
                    predicted
                } else {
                    server_tick
                };
                &&& r.0@ == replay_cmds(*self, server_tick, target)
                &&& r.1 == replay_end(*self, server_tick, target)
            }),
    {
        let target = if predicted > server_tick {
            predicted
        } else {
            server_tick
        };
        let mut cmds: Vec<C> = Vec::new();
        let mut t = server_tick;
        let mut stop = false;
        while t < target && !stop
            invariant
                self.wf(),
                server_tick <= t,
                !stop ==> t <= target,
                !stop ==> cmds@ + replay_cmds(*self, t, target) == replay_cmds(*self, server_tick, target),
                !stop ==> replay_end(*self, t, target) == replay_end(*self, server_tick, target),
                stop ==> cmds@ == replay_cmds(*self, server_tick, target),
                stop ==> t == replay_end(*self, server_tick, target),
            decreases target - t + if stop { 0int } else { 1int },
        {
            let next = t + 1;
            match self.get(next) {
                Some(c) => {
                    let ghost before = cmds@;
                    cmds.push(c);
                    assert(cmds@ + replay_cmds(*self, next, target) =~= before + replay_cmds(*self, t, target));
                    t = next;
                },
                None => {
                    assert(replay_cmds(*self, t, target) == Seq::<C>::empty());
                    assert(cmds@ =~= cmds@ + replay_cmds(*self, t, target));
                    t = next;
                    stop = true;
                },
            }
        }
        if !stop {
            assert(cmds@ =~= cmds@ + replay_cmds(*self, t, target));
        }
        (cmds, t)
    }
}

/// What one `push` undoes and keeps: right after recording a command for a tick, that command is
/// what the history gives back for the tick, and ticks in other slots are untouched.
pub proof fn lemma_read_after_write<C: Copy>(
    before: InputHistory<C>,
    after: InputHistory<C>,
    tick: u32,
    cmd: C,
    other: u32,
)
    requires
        recorded(before, after, tick, cmd),
        !same_slot(other, tick),
    ensures
        after.lookup(tick) == Some(cmd),
        after.lookup(other) == before.lookup(other),
{
    assert(after.lookup(tick) == Some(cmd));
    assert(after.lookup(other) == before.lookup(other));
}

proof fn lemma_kept_through<C: Copy>(hs: Seq<InputHistory<C>>, ticks: Seq<u32>, cmds: Seq<C>, i: int, n: int)
    requires
        pushes(hs, ticks, cmds),
        0 <= i < n <= ticks.len(),
        forall|j: int| i < j < ticks.len() ==> !same_slot(#[trigger] ticks[j], ticks[i]),
    ensures
        hs[n].lookup(ticks[i]) == Some(cmds[i]),
    decreases n - i,
{
    let k = n - 1;
    assert(recorded(hs[k], hs[k + 1], ticks[k], cmds[k]));
    if n - 1 > i {
        lemma_kept_through(hs, ticks, cmds, i, n - 1);
        assert(!same_slot(ticks[n - 1], ticks[i]));
        assert(ticks[i] != ticks[n - 1]);
        assert(hs[n].lookup(ticks[i]) == hs[n - 1].lookup(ticks[i]));
    } else {
        assert(hs[n].lookup(ticks[i]) == Some(cmds[i]));
    }
}

/// A command stays until a command for a tick of its slot replaces it: after any later pushes, none
/// of them for a tick sharing its slot, the history still gives it back for its tick.
pub proof fn lemma_kept_until_replaced<C: Copy>(hs: Seq<InputHistory<C>>, ticks: Seq<u32>, cmds: Seq<C>, i: int)
    requires
        pushes(hs, ticks, cmds),
        0 <= i < ticks.len(),
        forall|j: int| i < j < ticks.len() ==> !same_slot(#[trigger] ticks[j], ticks[i]),
    ensures
        hs.last().lookup(ticks[i]) == Some(cmds[i]),
{
    lemma_kept_through(hs, ticks, cmds, i, ticks.len() as int);
}

proof fn lemma_held_before<C: Copy>(hs: Seq<InputHistory<C>>, ticks: Seq<u32>, cmds: Seq<C>, t: u32, n: int)
    requires
        pushes(hs, ticks, cmds),
        forall|u: u32| #[trigger] hs[0].lookup(u) is None,
        0 <= n <= ticks.len(),
    ensures
        hs[n].lookup(t) matches Some(x) ==> exists|i: int| 0 <= i < n && #[trigger] ticks[i] == t && cmds[i] == x,
    decreases n,
{
    if n > 0 {
        lemma_held_before(hs, ticks, cmds, t, n - 1);
        let k = n - 1;
        assert(recorded(hs[k], hs[k + 1], ticks[k], cmds[k]));
        if hs[n].lookup(t) is Some {
            if t == ticks[n - 1] {
                assert(ticks[n - 1] == t && cmds[n - 1] == hs[n].lookup(t)->0);
            } else {
                assert(hs[n].lookup(t) == hs[n - 1].lookup(t));
            }
        }
    } else {
        assert(hs[0].lookup(t) is None);
    }
}

/// A history gives back for a tick only a command recorded for that very tick: starting empty,
/// after any pushes, what it holds for `t` was pushed for `t`.
pub proof fn lemma_only_what_was_pushed<C: Copy>(hs: Seq<InputHistory<C>>, ticks: Seq<u32>, cmds: Seq<C>, t: u32)
    requires
        pushes(hs, ticks, cmds),
        forall|u: u32| #[trigger] hs[0].lookup(u) is None,
    ensures
        hs.last().lookup(t) matches Some(x) ==> exists|i: int|
            0 <= i < ticks.len() && #[trigger] ticks[i] == t && cmds[i] == x,
{
    lemma_held_before(hs, ticks, cmds, t, ticks.len() as int);
}

/// A held command is never newer than the newest tick recorded.
pub proof fn lemma_held_not_newer<C: Copy>(h: InputHistory<C>, t: u32)
    requires
        h.wf(),
        h.lookup(t) is Some,
    ensures
        t <= h.newest_tick(),
{
    let k = t as int % HISTORY as int;
    assert(h.slots@[k] is Some);
}

} // verus!
