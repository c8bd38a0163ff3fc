//! Counting heap operations inside hot regions.
//!
//! Each thread keeps a [`HotState`]: whether it is inside a hot region, and how many heap
//! operations it has made while it was. The allocator calls [`note`] on every allocation,
//! reallocation and free; [`count`] runs a closure as a (possibly nested) hot region and reports
//! how many operations it made; the sector runtime marks each tick with [`set_hot`]. Every
//! operation inside a hot region also bumps a process-wide counter, read by [`violations`].

use std::sync::atomic::AtomicU64;
use vstd::prelude::*;

verus! {

/// Wraps the system allocator and counts the heap operations made inside hot regions. (The
/// allocator itself lives with the program that installs it; this crate holds its bookkeeping.)
pub struct CountingAlloc;

/// One thread's tracking state.
#[derive(Clone, Copy, Debug, PartialEq, Eq)]
pub struct HotState {
    /// Inside a hot region.
    pub hot: bool,
    /// Heap operations seen inside hot regions on this thread (wrapping).
    pub count: u64,
}

impl HotState {
    /// A thread's state before it does anything: outside any region, nothing counted.
    pub fn new() -> (s: HotState)
        ensures
            !s.hot,
            s.count == 0,
    {
        HotState { hot: false, count: 0 }
    }
}

/// What one heap operation does to a thread's state.
pub open spec fn after_note(s: HotState) -> HotState {
    if s.hot {
        HotState { hot: true, count: s.count.wrapping_add(1) }
    } else {
        s
    }
}

/// Records one heap operation: inside a hot region it is counted on this thread and added to the
/// process-wide total; outside, nothing changes. Returns whether it was counted.
pub fn note(state: &mut HotState, total: &AtomicU64) -> (counted: bool)
    ensures
        counted == old(state).hot,
        *final(state) == after_note(*old(state)),
{
    if state.hot {
        state.count = state.count.wrapping_add(1);
        let _ = total.fetch_add(1, std::sync::atomic::Ordering::Relaxed);
        true
    } else {
        false
    }
}

/// Marks the thread as inside (`true`) or outside (`false`) a hot region. The count is kept.
pub fn set_hot(state: &mut HotState, on: bool)
    ensures
        final(state).hot == on,
        final(state).count == old(state).count,
{
    state.hot = on;
}

/// The state inside a region entered from `s`: hot, with the count carried on.
pub open spec fn entered(s: HotState) -> HotState {
    HotState { hot: true, count: s.count }
}

/// How many heap operations a region entered from `s` and left in `inside` made (wrapping).
pub open spec fn counted(s: HotState, inside: HotState) -> u64 {
    inside.count.wrapping_sub(s.count)
}

/// The state to resume with after a region entered from `s` and left in `inside`: the flag from
/// before the region, the count from inside it.
pub open spec fn resumed(s: HotState, inside: HotState) -> HotState {
    HotState { hot: s.hot, count: inside.count }
}

/// The state after `n` heap operations from `s`.
pub open spec fn after_notes(s: HotState, n: nat) -> HotState
    decreases n,
{
    if n == 0 {
        s
    } else {
        after_note(after_notes(s, (n - 1) as nat))
    }
}

/// Runs `f` as a hot region and returns its result, the state to resume with, and how many heap
/// operations the region made. `f` is handed the state inside the region and hands back the state
/// it left the thread in. Regions nest: on the way out the outer hot flag comes back.
pub fn count<R, F: FnOnce(HotState) -> (R, HotState)>(state: HotState, f: F) -> (res: (
    R,
    HotState,
    u64,
))
    requires
        f.requires((entered(state),)),
    ensures
        exists|inner: HotState|
            {
                &&& #[trigger] f.ensures((entered(state),), (res.0, inner))
                &&& res.1 == resumed(state, inner)
                &&& res.2 == counted(state, inner)
            },
{
    let was_hot = state.hot;
    let before = state.count;
    let (out, inner) = f(HotState { hot: true, count: before });
    let after = inner.count;
    let res = (out, HotState { hot: was_hot, count: after }, after.wrapping_sub(before));
    assert(f.ensures((entered(state),), (res.0, inner)));
    res
}

/// `n` heap operations inside a hot region add `n` to the count (wrapping); outside one they
/// change nothing.
pub proof fn lemma_notes_add(s: HotState, n: nat)
    ensures
        s.hot ==> after_notes(s, n) == (HotState { hot: true, count: ((s.count + n) % 0x1_0000_0000_0000_0000) as u64 }),
        !s.hot ==> after_notes(s, n) == s,
    decreases n,
{
    if n > 0 {
        lemma_notes_add(s, (n - 1) as nat);
        if s.hot {
            let m: int = 0x1_0000_0000_0000_0000;
            let c = (s.count + n - 1) % m;
            assert(c == (s.count + n - 1) % m);
            vstd::arithmetic::div_mod::lemma_add_mod_noop(s.count + n - 1, 1, m);
            vstd::arithmetic::div_mod::lemma_small_mod(1, m as nat);
            if c + 1 == m {
                vstd::arithmetic::div_mod::lemma_mod_self_0(m);
            } else {
                vstd::arithmetic::div_mod::lemma_small_mod((c + 1) as nat, m as nat);
            }
        }
    }
}

/// Counting `t` operations from a count of `c` reads back `t` (wrapping).
proof fn lemma_count_reads_back(c: u64, t: nat)
    ensures
        (((c + t) % 0x1_0000_0000_0000_0000) as u64).wrapping_sub(c) == t % 0x1_0000_0000_0000_0000,
{
    let m: int = 0x1_0000_0000_0000_0000;
    let r = (t as int) % m;
    vstd::arithmetic::div_mod::lemma_add_mod_noop(c as int, t as int, m);
    vstd::arithmetic::div_mod::lemma_small_mod(c as nat, m as nat);
    vstd::arithmetic::div_mod::lemma_mod_bound(t as int, m);
    if c + r < m {
        vstd::arithmetic::div_mod::lemma_small_mod((c + r) as nat, m as nat);
    } else {
        vstd::arithmetic::div_mod::lemma_mod_sub_multiples_vanish(c + r, m);
        vstd::arithmetic::div_mod::lemma_small_mod((c + r - m) as nat, m as nat);
        vstd::arithmetic::div_mod::lemma_mod_self_0(m);
    }
}

/// Regions nest: in a region that makes `a` heap operations, then runs a nested region that makes
/// `k`, then makes `b` more, the nested region counts `k` and the outer one counts all `a + k + b`
/// (wrapping); between them the thread stays hot, and after the outer region its flag is what it
/// was before.
pub proof fn lemma_regions_nest(s: HotState, a: nat, k: nat, b: nat)
    ensures
        ({
            let before_inner = after_notes(entered(s), a);
            let inner_exit = after_notes(entered(before_inner), k);
            let back = resumed(before_inner, inner_exit);
            let outer_exit = after_notes(back, b);
            &&& counted(before_inner, inner_exit) == k % 0x1_0000_0000_0000_0000
            &&& back.hot
            &&& counted(s, outer_exit) == (a + k + b) % 0x1_0000_0000_0000_0000
            &&& resumed(s, outer_exit).hot == s.hot
        }),
{
    let m: int = 0x1_0000_0000_0000_0000;
    let before_inner = after_notes(entered(s), a);
    lemma_notes_add(entered(s), a);
    let inner_exit = after_notes(entered(before_inner), k);
    lemma_notes_add(entered(before_inner), k);
    lemma_count_reads_back(before_inner.count, k);
    let back = resumed(before_inner, inner_exit);
    lemma_notes_add(back, b);
    let outer_exit = after_notes(back, b);
    // The outer count is the entry count plus a, k and b, modulo 2^64.
    vstd::arithmetic::div_mod::lemma_add_mod_noop(s.count + a, k as int, m);
    vstd::arithmetic::div_mod::lemma_mod_twice(k as int, m);
    vstd::arithmetic::div_mod::lemma_small_mod(before_inner.count as nat, m as nat);
    vstd::arithmetic::div_mod::lemma_add_mod_noop(s.count + a, (k as int) % m, m);
    assert(inner_exit.count == (s.count + a + k) % m);
    vstd::arithmetic::div_mod::lemma_add_mod_noop(s.count + a + k, b as int, m);
    vstd::arithmetic::div_mod::lemma_small_mod(inner_exit.count as nat, m as nat);
    vstd::arithmetic::div_mod::lemma_mod_twice(b as int, m);
    assert(outer_exit.count == (s.count + a + k + b) % m);
    lemma_count_reads_back(s.count, a + k + b);
}

/// Total heap operations seen inside hot regions, on any thread, since the counter was made.
pub fn violations(total: &AtomicU64) -> u64 {
    total.load(std::sync::atomic::Ordering::Relaxed)
}

} // verus!
