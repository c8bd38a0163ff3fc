//! Which ticks the client generates commands for, and how it packs them into datagrams.
//!
//! Commands for tick `k` must reach the server before it simulates `k`. Each poll generates every
//! command that is due, then sends the newest and the ones before it: each packet carries up to
//! [`MAX_CMDS`] consecutive commands, newest first, and a burst of several ticks is sent as
//! windows overlapping by half, so that a single lost packet costs nothing.

use crate::history::InputHistory;
use vstd::prelude::*;

verus! {

/// Commands per input packet.
pub const MAX_CMDS: usize = 4;
/// How far apart the newest commands of successive packets in one burst are.
pub const STEP: u32 = 2;
/// A gap (ticks) past which the client resumes rather than catching up.
pub const STALL_TICKS: u32 = 30;

/// Where command generation resumes: at the first command, or after a stall (a background tab),
/// a few ticks before the target but after every command already sent.
pub open spec fn resume_tick(next: u32, target: u32, newest: u32) -> int {
    if next == 0 || target > next + STALL_TICKS {
        let back = if target >= 3 {
            target - 3
        } else {
            0
        };
        if back > newest + 1 {
            back
        } else {
            newest + 1
        }
    } else {
        next as int
    }
}

/// The inputs on which the schedule's tick arithmetic stays within `u32`.
pub open spec fn schedule_fits(next: u32, target: u32, newest: u32) -> bool {
    &&& (next == 0 || next + STALL_TICKS <= u32::MAX)
    &&& ((next == 0 || target > next + STALL_TICKS) ==> newest < u32::MAX)
    &&& (target >= resume_tick(next, target, newest) ==> target < u32::MAX - STEP)
}

/// The commands due at a poll. `next` is the tick the next command is for (0 before the first),
/// `target` the tick the input clock has reached, and `newest` the newest tick already sent.
/// Returns the tick to continue from, and the ticks (first and last, inclusive) to generate now,
/// if any.
pub fn due_ticks(next: u32, target: u32, newest: u32) -> (r: (u32, Option<(u32, u32)>))
    requires
        schedule_fits(next, target, newest),
    ensures
        ({
            let resume = resume_tick(next, target, newest);
            if target < resume {
                r == (resume as u32, None::<(u32, u32)>)
            } else {
                r == ((target + 1) as u32, Some((resume as u32, target)))
            }
        }),
{
    let mut next = next;
    if next == 0 || target > next + STALL_TICKS {
        let back = target.saturating_sub(3);
        next = if back > newest + 1 {
            back
        } else {
            newest + 1
        };
    }
    if target < next {
        return (next, None);
    }
    (target + 1, Some((next, target)))
}

/// The commands of one packet whose newest is for tick `newest`: that one and those before it, up
/// to [`MAX_CMDS`], stopping at the first tick the history no longer holds (or before tick 0).
pub open spec fn run_from<C: Copy>(h: InputHistory<C>, newest: u32, n: int) -> Seq<C>
    decreases MAX_CMDS - n,
{
    if n < 0 || n >= MAX_CMDS || newest - n < 0 {
        seq![]
    } else {
        match h.lookup((newest - n) as u32) {
            Some(c) => seq![c] + run_from(h, newest, n + 1),
            None => seq![],
        }
    }
}

/// The packets of a burst from `first` to `newest`: windows whose newest commands step down by
/// [`STEP`] from `newest` until one is within a step of `first`; empty windows are not sent.
pub open spec fn burst_from<C: Copy>(h: InputHistory<C>, newest: u32, first: u32) -> Seq<Seq<C>>
    decreases newest,
{
    let w = run_from(h, newest, 0);
    let rest = if newest < first + STEP || newest < STEP {
        seq![]
    } else {
        burst_from(h, (newest - STEP) as u32, first)
    };
    if w.len() > 0 {
        seq![w] + rest
    } else {
        rest
    }
}

/// The commands of the packet whose newest command is for tick `newest`.
fn window<C: Copy>(h: &InputHistory<C>, newest: u32) -> (cmds: Vec<C>)
    requires
        h.wf(),
    ensures
        cmds@ == run_from(*h, newest, 0),
{
    let mut cmds: Vec<C> = Vec::new();
    let mut n: u32 = 0;
    let mut stop = false;
    while n < 4 && !stop
        invariant
            h.wf(),
            n <= 4,
            stop ==> run_from(*h, newest, n as int) == Seq::<C>::empty(),
            cmds@ + run_from(*h, newest, n as int) == run_from(*h, newest, 0),
        decreases 4 - n + if stop { 0int } else { 1int },
    {
        match newest.checked_sub(n) {
            Some(t) => match h.get(t) {
                Some(c) => {
                    proof {
                        assert(run_from(*h, newest, n as int) == seq![c] + run_from(*h, newest, n + 1));
                    }
                    cmds.push(c);
                    proof {
                        assert(cmds@ + run_from(*h, newest, n + 1) =~= run_from(*h, newest, 0));
                    }
                    n = n + 1;
                },
                None => {
                    stop = true;
                },
            },
            None => {
                stop = true;
            },
        }
    }
    assert(cmds@ =~= run_from(*h, newest, 0));
    cmds
}

/// The packets for a burst of commands from `first` to `last`: each holds up to [`MAX_CMDS`]
/// consecutive commands, newest first; their newest commands step down from `last` by [`STEP`].
pub fn packet_windows<C: Copy>(h: &InputHistory<C>, first: u32, last: u32) -> (packets: Vec<
    Vec<C>,
>)
    requires
        h.wf(),
        first <= last,
        first + STEP <= u32::MAX,
    ensures
        packets@.len() == burst_from(*h, last, first).len(),
        forall|i: int|
            0 <= i < packets@.len() ==> (#[trigger] packets@[i])@ == burst_from(*h, last, first)[i],
{
    let mut packets: Vec<Vec<C>> = Vec::new();
    let mut newest = last;
    let ghost mut done: Seq<Seq<C>> = seq![];
    loop
        invariant
            h.wf(),
            first + STEP <= u32::MAX,
            packets@.len() == done.len(),
            forall|i: int| 0 <= i < packets@.len() ==> (#[trigger] packets@[i])@ == done[i],
            done + burst_from(*h, newest, first) == burst_from(*h, last, first),
        decreases newest,
    {
        let cmds = window(h, newest);
        let ghost rest = if newest < first + STEP || newest < STEP {
            Seq::<Seq<C>>::empty()
        } else {
            burst_from(*h, (newest - STEP) as u32, first)
        };
        proof {
            assert(burst_from(*h, newest, first) == if cmds@.len() > 0 {
                seq![cmds@] + rest
            } else {
                rest
            });
        }
        if cmds.len() > 0 {
            proof {
                done = done.push(cmds@);
                assert(done + rest =~= burst_from(*h, last, first));
            }
            packets.push(cmds);
        } else {
            proof {
                assert(done + rest =~= burst_from(*h, last, first));
            }
        }
        if newest < first + STEP {
            proof {
                assert(done =~= burst_from(*h, last, first));
            }
            return packets;
        }
        newest = newest - STEP;
    }
}

/// Every tick from `lo` to `hi` is still held.
pub open spec fn holds_ticks<C: Copy>(h: InputHistory<C>, lo: int, hi: int) -> bool {
    forall|u: u32| lo <= u <= hi ==> #[trigger] h.lookup(u) is Some
}

proof fn lemma_run_reaches<C: Copy>(h: InputHistory<C>, w: u32, n: int, t: u32)
    requires
        0 <= n <= w - t < MAX_CMDS,
        holds_ticks(h, t as int, w as int),
    ensures
        run_from(h, w, n).len() > w - t - n,
        run_from(h, w, n)[w - t - n] == h.lookup(t)->0,
    decreases w - t - n,
{
    let u = (w - n) as u32;
    assert(h.lookup(u) is Some);
    if n < w - t {
        lemma_run_reaches(h, w, n + 1, t);
    }
}

proof fn lemma_burst_shape<C: Copy>(h: InputHistory<C>, newest: u32, first: u32)
    requires
        first <= newest,
        holds_ticks(h, first as int, newest as int),
    ensures
        burst_from(h, newest, first).len() == (newest - first) / 2 + 1,
        forall|i: int|
            0 <= i < burst_from(h, newest, first).len() ==> #[trigger] burst_from(h, newest, first)[i]
                == run_from(h, (newest - 2 * i) as u32, 0),
    decreases newest,
{
    assert(h.lookup(newest) is Some);
    reveal_with_fuel(run_from, 2);
    let w = run_from(h, newest, 0);
    assert(w.len() > 0);
    if newest < first + STEP {
        assert(burst_from(h, newest, first) =~= seq![w]);
    } else {
        let rest = burst_from(h, (newest - STEP) as u32, first);
        lemma_burst_shape(h, (newest - STEP) as u32, first);
        assert(burst_from(h, newest, first) == seq![w] + rest);
        assert forall|i: int|
            0 <= i < burst_from(h, newest, first).len() implies #[trigger] burst_from(h, newest, first)[i]
                == run_from(h, (newest - 2 * i) as u32, 0) by {
            if i > 0 {
                assert(burst_from(h, newest, first)[i] == rest[i - 1]);
                assert((newest - STEP) - 2 * (i - 1) == newest - 2 * i);
            }
        }
    }
}

/// A burst sends every command twice but the two newest: when the history holds every tick from
/// `first` to `last`, each command up to two ticks before the newest is carried by two different
/// packets of the burst (and the newest ones by the first packet), so one lost packet costs
/// nothing.
pub proof fn lemma_commands_travel_twice<C: Copy>(h: InputHistory<C>, first: u32, last: u32, t: u32)
    requires
        first <= t,
        t + 2 <= last,
        holds_ticks(h, first as int, last as int),
    ensures
        exists|i: int, j: int, ki: int, kj: int|
            0 <= i < j < burst_from(h, last, first).len() && 0 <= ki < burst_from(h, last, first)[i].len()
                && 0 <= kj < burst_from(h, last, first)[j].len() && #[trigger] burst_from(h, last, first)[i][ki]
                == h.lookup(t)->0 && #[trigger] burst_from(h, last, first)[j][kj] == h.lookup(t)->0,
{
    lemma_burst_shape(h, last, first);
    let d = last - t;
    let i = d / 2 - 1;
    let j = d / 2;
    let wi = (last - 2 * i) as u32;
    let wj = (last - 2 * j) as u32;
    assert(t <= wj && wj <= wi && wi - t < MAX_CMDS);
    assert(holds_ticks(h, t as int, wi as int));
    lemma_run_reaches(h, wi, 0, t);
    lemma_run_reaches(h, wj, 0, t);
    let bi = burst_from(h, last, first)[i];
    let bj = burst_from(h, last, first)[j];
    assert(bi[wi - t] == h.lookup(t)->0);
    assert(bj[wj - t] == h.lookup(t)->0);
}

/// The newest commands of a burst ride in its first packet: with every tick from `first` to `last`
/// held, the first packet carries the commands for `last` and the ticks before it, down to the
/// oldest of its [`MAX_CMDS`].
pub proof fn lemma_first_packet_carries_newest<C: Copy>(h: InputHistory<C>, first: u32, last: u32, t: u32)
    requires
        first <= t <= last,
        last - t < MAX_CMDS,
        holds_ticks(h, first as int, last as int),
    ensures
        burst_from(h, last, first).len() > 0,
        burst_from(h, last, first)[0].len() > last - t,
        burst_from(h, last, first)[0][last - t] == h.lookup(t)->0,
{
    lemma_burst_shape(h, last, first);
    lemma_run_reaches(h, last, 0, t);
}

/// The ticks due at a poll: a run (if any) ends at the target and the next poll goes on from the
/// tick after it; a first command or one after a stall starts after every command already sent
/// and no more than three ticks before the target unless that would repeat a sent one; otherwise
/// generation simply goes on from where it was.
pub proof fn lemma_due_ticks_follow_on(next: u32, target: u32, newest: u32)
    requires
        schedule_fits(next, target, newest),
    ensures
        ({
            let resume = resume_tick(next, target, newest);
            &&& (next == 0 || target > next + STALL_TICKS) ==> resume > newest && (resume == newest + 1
                || resume + 3 == target)
            &&& !(next == 0 || target > next + STALL_TICKS) ==> resume == next
            &&& resume <= target ==> target + 1 > resume
        }),
{
}

} // verus!
