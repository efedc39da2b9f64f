//! Counting: what a run read, wrote and left out, and why the counts add up.

use crate::batcher::all_batches;
use crate::batcher::lemma_batches_keep_every_record;
use crate::command::CommandView;
use crate::correlator::EntryView;
use crate::correlator::RecordView;
use crate::decimal::decimal_i64;
use crate::plan::expired_count;
use crate::plan::inserted_count;
use crate::plan::lemma_counts_cover_batch;
use crate::plan::readable;
use crate::replay::lemma_writes_are_accounted_for;
use crate::replay::replay;
use crate::replay::start_of;
use vstd::prelude::*;

verus! {

/// Running totals of one worker or of a whole run. They only grow.
#[derive(Clone, Copy, PartialEq, Eq, Debug, Structural)]
pub struct Totals {
    /// Writes that the correlator took in.
    pub accepted: u64,
    /// Records written with the time to live that they had left.
    pub inserted: u64,
    /// Records that had expired when their batch was handled.
    pub expired_on_arrival: u64,
    /// Writes that never met an expiry and were flushed at the end.
    pub without_ttl: u64,
}

/// A count that no longer fits its counter.
#[derive(Clone, Copy, PartialEq, Eq, Debug, Structural)]
pub struct CounterOverflow;

/// True when every write that was taken in is counted once among the
/// inserted, the expired on arrival and those without a time to live.
pub open spec fn balanced(t: Totals) -> bool {
    t.inserted + t.expired_on_arrival + t.without_ttl == t.accepted
}

/// True when adding `more` to `t`, counter by counter, fits.
pub open spec fn fits(t: Totals, more: Totals) -> bool {
    &&& t.accepted + more.accepted <= u64::MAX
    &&& t.inserted + more.inserted <= u64::MAX
    &&& t.expired_on_arrival + more.expired_on_arrival <= u64::MAX
    &&& t.without_ttl + more.without_ttl <= u64::MAX
}

/// The totals `t` and `more` together, counter by counter.
pub open spec fn sum_of(t: Totals, more: Totals) -> Totals {
    Totals {
        accepted: (t.accepted + more.accepted) as u64,
        inserted: (t.inserted + more.inserted) as u64,
        expired_on_arrival: (t.expired_on_arrival + more.expired_on_arrival) as u64,
        without_ttl: (t.without_ttl + more.without_ttl) as u64,
    }
}

impl Totals {
    /// Totals that have counted nothing.
    pub fn new() -> (t: Totals)
        ensures
            t == (Totals { accepted: 0, inserted: 0, expired_on_arrival: 0, without_ttl: 0 }),
    {
        Totals { accepted: 0, inserted: 0, expired_on_arrival: 0, without_ttl: 0 }
    }

    /// Adds `more`, counter by counter. Where a counter would not hold its
    /// sum, nothing is added.
    pub fn add(&mut self, more: Totals) -> (r: Result<(), CounterOverflow>)
        ensures
            match r {
                Ok(_) => fits(*old(self), more) && *final(self) == sum_of(*old(self), more),
                Err(_) => !fits(*old(self), more) && *final(self) == *old(self),
            },
    {
        if more.accepted > u64::MAX - self.accepted || more.inserted > u64::MAX - self.inserted
            || more.expired_on_arrival > u64::MAX - self.expired_on_arrival || more.without_ttl
            > u64::MAX - self.without_ttl {
            return Err(CounterOverflow);
        }
        self.accepted = self.accepted + more.accepted;
        self.inserted = self.inserted + more.inserted;
        self.expired_on_arrival = self.expired_on_arrival + more.expired_on_arrival;
        self.without_ttl = self.without_ttl + more.without_ttl;
        Ok(())
    }

    /// Counts `count` more writes that were taken in.
    pub fn add_accepted(&mut self, count: u64) -> (r: Result<(), CounterOverflow>)
        ensures
            match r {
                Ok(_) => old(self).accepted + count <= u64::MAX && *final(self) == (Totals {
                    accepted: (old(self).accepted + count) as u64,
                    ..*old(self)
                }),
                Err(_) => old(self).accepted + count > u64::MAX && *final(self) == *old(self),
            },
    {
        if count > u64::MAX - self.accepted {
            return Err(CounterOverflow);
        }
        self.accepted = self.accepted + count;
        Ok(())
    }

    /// Counts a batch whose request was executed: `inserted` records written
    /// and `expired` left out.
    pub fn add_batch(&mut self, inserted: u64, expired: u64) -> (r: Result<(), CounterOverflow>)
        ensures
            match r {
                Ok(_) => {
                    &&& old(self).inserted + inserted <= u64::MAX
                    &&& old(self).expired_on_arrival + expired <= u64::MAX
                    &&& *final(self) == (Totals {
                        inserted: (old(self).inserted + inserted) as u64,
                        expired_on_arrival: (old(self).expired_on_arrival + expired) as u64,
                        ..*old(self)
                    })
                },
                Err(_) => {
                    &&& (old(self).inserted + inserted > u64::MAX || old(self).expired_on_arrival
                        + expired > u64::MAX)
                    &&& *final(self) == *old(self)
                },
            },
    {
        if inserted > u64::MAX - self.inserted || expired > u64::MAX - self.expired_on_arrival {
            return Err(CounterOverflow);
        }
        self.inserted = self.inserted + inserted;
        self.expired_on_arrival = self.expired_on_arrival + expired;
        Ok(())
    }

    /// Counts `count` leftover writes that were flushed.
    pub fn add_without_ttl(&mut self, count: u64) -> (r: Result<(), CounterOverflow>)
        ensures
            match r {
                Ok(_) => old(self).without_ttl + count <= u64::MAX && *final(self) == (Totals {
                    without_ttl: (old(self).without_ttl + count) as u64,
                    ..*old(self)
                }),
                Err(_) => old(self).without_ttl + count > u64::MAX && *final(self) == *old(
                    self,
                ),
            },
    {
        if count > u64::MAX - self.without_ttl {
            return Err(CounterOverflow);
        }
        self.without_ttl = self.without_ttl + count;
        Ok(())
    }

    /// Tells whether the counts add up.
    pub fn is_balanced(&self) -> (r: bool)
        ensures
            r == balanced(*self),
    {
        let handled: u128 = self.inserted as u128 + self.expired_on_arrival as u128
            + self.without_ttl as u128;
        handled == self.accepted as u128
    }
}

/// The records that all of `batches` write when batch `i` is handled at the
/// instant `clock[i]`.
pub open spec fn inserted_total(batches: Seq<Seq<RecordView>>, clock: Seq<int>) -> nat
    decreases batches.len(),
{
    if batches.len() == 0 {
        0
    } else {
        inserted_total(batches.drop_last(), clock) + inserted_count(
            batches.last(),
            clock[batches.len() - 1],
        )
    }
}

/// The records that all of `batches` leave out as expired when batch `i` is
/// handled at the instant `clock[i]`.
pub open spec fn expired_total(batches: Seq<Seq<RecordView>>, clock: Seq<int>) -> nat
    decreases batches.len(),
{
    if batches.len() == 0 {
        0
    } else {
        expired_total(batches.drop_last(), clock) + expired_count(
            batches.last(),
            clock[batches.len() - 1],
        )
    }
}

/// Whenever each batch is handled, the batches count each of their records
/// once, as inserted or as expired.
pub proof fn lemma_batches_count_every_record(batches: Seq<Seq<RecordView>>, clock: Seq<int>)
    requires
        readable(batches.flatten()),
    ensures
        inserted_total(batches, clock) + expired_total(batches, clock)
            == batches.flatten().len(),
    decreases batches.len(),
{
    broadcast use Seq::lemma_flatten_push;

    if batches.len() == 0 {
        assert(batches.flatten() =~= Seq::<RecordView>::empty());
    } else {
        let earlier = batches.drop_last();
        let last = batches.last();
        assert(batches =~= earlier.push(last));
        assert(batches.flatten() =~= earlier.flatten() + last);
        assert forall|i: int| 0 <= i < earlier.flatten().len() implies decimal_i64(
            (#[trigger] earlier.flatten()[i]).expire_at,
        ) is Some by {
            assert(earlier.flatten()[i] == batches.flatten()[i]);
        }
        assert forall|i: int| 0 <= i < last.len() implies decimal_i64(
            (#[trigger] last[i]).expire_at,
        ) is Some by {
            assert(last[i] == batches.flatten()[earlier.flatten().len() + i]);
        }
        lemma_batches_count_every_record(earlier, clock);
        lemma_counts_cover_batch(last, clock[batches.len() - 1]);
    }
}

/// Conservation: in a run that starts with nothing pending, whatever the
/// commands, the batch capacity and the instants at which the batches are
/// handled, the records inserted, the records expired on arrival and the
/// writes left without an expiry are together the writes that were taken in.
/// The expiry of every record must be readable: a batch with an unreadable
/// one has no plan and counts for nothing.
pub proof fn lemma_counters_are_conserved(
    commands: Seq<CommandView>,
    capacity: nat,
    clock: Seq<int>,
)
    requires
        capacity > 0,
        readable(replay(start_of(Seq::empty()), commands).records),
    ensures
        ({
            let run = replay(start_of(Seq::<EntryView>::empty()), commands);
            let batches = all_batches(run.records, capacity);
            inserted_total(batches, clock) + expired_total(batches, clock) + run.pending.len()
                == run.accepted
        }),
{
    let run = replay(start_of(Seq::<EntryView>::empty()), commands);
    lemma_writes_are_accounted_for(commands);
    lemma_batches_keep_every_record(run.records, capacity);
    lemma_batches_count_every_record(all_batches(run.records, capacity), clock);
}

} // verus!
