//! The memory-weighted scheduler: a counting semaphore whose units are
//! fixed-size memory quanta. Each worker reserves its model's units
//! before running and releases them afterwards; the outstanding grants
//! are tracked in ghost state, so that the accounting invariant — held
//! units plus available units equal the total — is machine-checked.

use vstd::prelude::*;
use crate::model::ModelId;

verus! {

/// One memory unit, in MiB.
pub const UNIT_MB: u64 = 512;

/// The units a model's working set costs: its estimate divided by the
/// unit size, at least one.
pub open spec fn spec_units_for(cost_mb: u64) -> u64 {
    if cost_mb / UNIT_MB < 1 {
        1u64
    } else {
        cost_mb / UNIT_MB
    }
}

/// The units a model needs before its job may run.
pub fn units_for(id: ModelId) -> (r: u64)
    ensures
        r == spec_units_for(id.spec_cost_mb()),
        r >= 1,
{
    let cost = id.cost_mb();
    let units = cost / UNIT_MB;
    if units < 1 {
        1
    } else {
        units
    }
}

/// The total capacity for a host: its RAM in whole units, at least one.
pub fn capacity_units(total_ram_mb: u64) -> (r: u64)
    ensures
        r == if total_ram_mb / UNIT_MB < 1 {
            1u64
        } else {
            total_ram_mb / UNIT_MB
        },
        r >= 1,
{
    let units = total_ram_mb / UNIT_MB;
    if units < 1 {
        1
    } else {
        units
    }
}

/// The sum of a sequence of grant sizes.
pub open spec fn sum(s: Seq<u64>) -> int
    decreases s.len(),
{
    if s.len() == 0 {
        0
    } else {
        sum(s.drop_last()) + s.last()
    }
}

/// Removing one grant lowers the sum by exactly that grant.
proof fn lemma_sum_remove(s: Seq<u64>, i: int)
    requires
        0 <= i < s.len(),
    ensures
        sum(s.remove(i)) == sum(s) - s[i],
    decreases s.len(),
{
    if i == s.len() - 1 {
        assert(s.remove(i) =~= s.drop_last());
    } else {
        assert(s.remove(i).drop_last() =~= s.drop_last().remove(i));
        lemma_sum_remove(s.drop_last(), i);
        assert(s.remove(i).last() == s.last());
    }
}

/// Every grant is non-negative, so no grant exceeds the sum.
proof fn lemma_sum_bounds_element(s: Seq<u64>, i: int)
    requires
        0 <= i < s.len(),
    ensures
        s[i] <= sum(s),
    decreases s.len(),
{
    if i == s.len() - 1 {
        lemma_sum_nonnegative(s.drop_last());
    } else {
        lemma_sum_bounds_element(s.drop_last(), i);
    }
}

/// A sum of grant sizes is never negative.
proof fn lemma_sum_nonnegative(s: Seq<u64>)
    ensures
        sum(s) >= 0,
    decreases s.len(),
{
    if s.len() > 0 {
        lemma_sum_nonnegative(s.drop_last());
    }
}

/// The decision of an acquisition attempt.
#[derive(Clone, Copy, PartialEq, Eq, Structural, Debug)]
pub enum AcquireOutcome {
    /// The units were reserved.
    Granted,
    /// Not enough units are free right now; the worker must wait.
    MustWait,
    /// The request exceeds the scheduler's whole capacity and can never
    /// be served.
    TooLarge,
}

/// The counting semaphore of memory units.
pub struct MemScheduler {
    /// Total units of the host.
    pub total: u64,
    /// Units currently free.
    pub available: u64,
    /// The sizes of the outstanding grants.
    pub outstanding: Ghost<Seq<u64>>,
}

impl MemScheduler {
    /// The accounting invariant: the held units and the available units
    /// partition the total.
    pub open spec fn wf(self) -> bool {
        self.available <= self.total && sum(self.outstanding@) + self.available == self.total
    }

    /// A scheduler with every unit free.
    pub fn new(total: u64) -> (s: MemScheduler)
        ensures
            s.wf(),
            s.total == total,
            s.available == total,
            s.outstanding@.len() == 0,
    {
        MemScheduler { total, available: total, outstanding: Ghost(Seq::empty()) }
    }

    /// Tries to reserve `units` without blocking: grants and debits them
    /// exactly when enough are free; asks the worker to wait when the
    /// capacity could serve the request but not now; rejects outright a
    /// request larger than the whole capacity.
    pub fn try_acquire(&mut self, units: u64) -> (r: AcquireOutcome)
        requires
            old(self).wf(),
        ensures
            final(self).wf(),
            final(self).total == old(self).total,
            r == AcquireOutcome::TooLarge <==> units > old(self).total,
            r == AcquireOutcome::MustWait <==> units <= old(self).total && units > old(
                self,
            ).available,
            r == AcquireOutcome::Granted <==> units <= old(self).available,
            r != AcquireOutcome::Granted ==> *final(self) == *old(self),
            r == AcquireOutcome::Granted ==> final(self).available == old(self).available - units
                && final(self).outstanding@ == old(self).outstanding@.push(units),
    {
        if units > self.total {
            AcquireOutcome::TooLarge
        } else if units > self.available {
            AcquireOutcome::MustWait
        } else {
            self.available = self.available - units;
            proof {
                let snap = self.outstanding@;
                assert(sum(snap.push(units)) == sum(snap.push(units).drop_last()) + units);
                assert(snap.push(units).drop_last() =~= snap);
            }
            self.outstanding = Ghost(self.outstanding@.push(units));
            AcquireOutcome::Granted
        }
    }

    /// Returns a grant: the units of one outstanding reservation come
    /// back to the pool.
    pub fn release(&mut self, units: u64)
        requires
            old(self).wf(),
            exists|i: int|
                0 <= i < old(self).outstanding@.len() && old(self).outstanding@[i] == units,
        ensures
            final(self).wf(),
            final(self).total == old(self).total,
            final(self).available == old(self).available + units,
            final(self).outstanding@.len() == old(self).outstanding@.len() - 1,
            sum(final(self).outstanding@) == sum(old(self).outstanding@) - units,
    {
        proof {
            let i = choose|i: int|
                0 <= i < self.outstanding@.len() && self.outstanding@[i] == units;
            lemma_sum_bounds_element(self.outstanding@, i);
            lemma_sum_remove(self.outstanding@, i);
            self.outstanding@ = self.outstanding@.remove(i);
        }
        self.available = self.available + units;
    }
}

/// Law: memory accounting. In every reachable scheduler state the sum of
/// the units held by active workers equals the total capacity minus the
/// available permits.
pub proof fn lemma_memory_accounting(s: MemScheduler)
    requires
        s.wf(),
    ensures
        sum(s.outstanding@) == s.total - s.available,
{
}

} // verus!
