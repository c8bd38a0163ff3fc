//! What a miner or salvager sees of its own suit: its hold and what's in its hand, its credits,
//! and whether it is docked.

use vstd::prelude::*;

verus! {

/// The kilograms held, summed over the first `n` materials.
pub open spec fn sum_kg(cargo: Seq<u16>, n: int) -> int
    decreases n,
{
    if n <= 0 || n > cargo.len() {
        0
    } else {
        sum_kg(cargo, n - 1) + cargo[n - 1]
    }
}

proof fn lemma_sum_bound(cargo: Seq<u16>, n: int)
    requires
        0 <= n <= cargo.len(),
    ensures
        0 <= sum_kg(cargo, n) <= n * 65535,
    decreases n,
{
    if n > 0 {
        lemma_sum_bound(cargo, n - 1);
    }
}

/// The own suit's hold, what's in its hand, and its credits. `N` is the number of materials.
#[derive(Clone, Copy, Debug, PartialEq, Eq)]
pub struct SalvageView<const N: usize> {
    /// The hold's contents per material, kg.
    pub cargo_kg: [u16; N],
    /// What the hold takes in all, kg.
    pub capacity_kg: u32,
    /// The chunk in hand.
    pub held: Option<u16>,
    pub credits: u32,
    /// At the dock, slow enough to trade.
    pub docked: bool,
}

impl<const N: usize> SalvageView<N> {
    /// Everything in the hold, kg.
    pub fn cargo_total_kg(&self) -> (kg: u32)
        requires
            N <= 65536,
        ensures
            kg == sum_kg(self.cargo_kg@, N as int),
    {
        let mut total: u32 = 0;
        let mut i: usize = 0;
        while i < N
            invariant
                N <= 65536,
                i <= N,
                self.cargo_kg@.len() == N,
                total == sum_kg(self.cargo_kg@, i as int),
            decreases N - i,
        {
            proof {
                lemma_sum_bound(self.cargo_kg@, i + 1);
                assert((i + 1) * 65535 <= 65536 * 65535) by (nonlinear_arith)
                    requires
                        i + 1 <= 65536,
                ;
            }
            total = total + self.cargo_kg[i] as u32;
            i = i + 1;
        }
        total
    }

    /// The hold's free room, kg (none when it is over capacity).
    pub fn room_kg(&self) -> (kg: u32)
        requires
            N <= 65536,
        ensures
            kg == if sum_kg(self.cargo_kg@, N as int) <= self.capacity_kg {
                self.capacity_kg - sum_kg(self.cargo_kg@, N as int)
            } else {
                0
            },
    {
        self.capacity_kg.saturating_sub(self.cargo_total_kg())
    }

    /// Whether a chunk of `mass_kg` still fits in the hold.
    pub fn fits(&self, mass_kg: u32) -> (b: bool)
        requires
            N <= 65536,
        ensures
            b == (sum_kg(self.cargo_kg@, N as int) + mass_kg <= self.capacity_kg),
    {
        let cargo = self.cargo_total_kg();
        cargo as u64 + mass_kg as u64 <= self.capacity_kg as u64
    }
}

/// The hold's total counts each material once: adding `d` kilograms of one material adds exactly
/// `d` to the total, and the total of an empty hold is nothing.
pub proof fn lemma_total_counts_each_material(cargo: Seq<u16>, n: int, i: int, d: u16)
    requires
        0 <= i < n <= cargo.len(),
        cargo[i] + d <= u16::MAX,
    ensures
        sum_kg(cargo.update(i, (cargo[i] + d) as u16), n) == sum_kg(cargo, n) + d,
        (forall|j: int| 0 <= j < cargo.len() ==> cargo[j] == 0) ==> sum_kg(cargo, n) == 0,
    decreases n,
{
    if n - 1 > i {
        lemma_total_counts_each_material(cargo, n - 1, i, d);
    } else {
        assert(sum_kg(cargo.update(i, (cargo[i] + d) as u16), n - 1) == sum_kg(cargo, n - 1)) by {
            lemma_sum_ignores_beyond(cargo, cargo.update(i, (cargo[i] + d) as u16), n - 1);
        }
    }
    if forall|j: int| 0 <= j < cargo.len() ==> cargo[j] == 0 {
        lemma_empty_sum(cargo, n);
    }
}

proof fn lemma_sum_ignores_beyond(a: Seq<u16>, b: Seq<u16>, n: int)
    requires
        0 <= n <= a.len(),
        a.len() == b.len(),
        forall|j: int| 0 <= j < n ==> a[j] == b[j],
    ensures
        sum_kg(a, n) == sum_kg(b, n),
    decreases n,
{
    if n > 0 {
        lemma_sum_ignores_beyond(a, b, n - 1);
    }
}

proof fn lemma_empty_sum(cargo: Seq<u16>, n: int)
    requires
        0 <= n <= cargo.len(),
        forall|j: int| 0 <= j < cargo.len() ==> cargo[j] == 0,
    ensures
        sum_kg(cargo, n) == 0,
    decreases n,
{
    if n > 0 {
        lemma_empty_sum(cargo, n - 1);
    }
}

} // verus!
