//! Planning: turning a batch of records into one pipelined request.

use crate::correlator::entries_view;
use crate::correlator::records_view;
use crate::correlator::CorrelatedRecord;
use crate::correlator::EntryView;
use crate::correlator::PendingEntry;
use crate::correlator::RecordView;
use crate::decimal::decimal_i64;
use crate::decimal::parse_i64;
use crate::request::discarded;
use crate::request::first_places;
use crate::request::new_request;
use crate::request::queue_write;
use crate::request::queued;
use crate::request::write_command;
use vstd::prelude::*;

verus! {

/// The seconds that are left at `now` until `expire_at`, where any are left.
pub open spec fn seconds_left(expire_at: int, now: int) -> Option<u64> {
    if expire_at - now > 0 {
        Some((expire_at - now) as u64)
    } else {
        None
    }
}

/// The time to live with which `record` is written at `now`: none where its
/// expiry is at or before `now`, and none where its expiry cannot be read.
pub open spec fn time_left(record: RecordView, now: int) -> Option<u64> {
    match decimal_i64(record.expire_at) {
        Some(at) => seconds_left(at, now),
        None => None,
    }
}

/// True when the expiry of every record in `batch` can be read.
pub open spec fn readable(batch: Seq<RecordView>) -> bool {
    forall|i: int| 0 <= i < batch.len() ==> decimal_i64((#[trigger] batch[i]).expire_at) is Some
}

/// The writes of a batch that is handled at `now`, in the order of its
/// records: one for each record that has time left, with that time to live.
/// A record whose expiry has passed is left out, so that its key stays absent.
pub open spec fn planned_writes(batch: Seq<RecordView>, now: int) -> Seq<Seq<Seq<u8>>>
    decreases batch.len(),
{
    if batch.len() == 0 {
        Seq::empty()
    } else {
        let earlier = planned_writes(batch.drop_last(), now);
        match time_left(batch.last(), now) {
            Some(ttl) => earlier.push(
                write_command(batch.last().key, batch.last().value, Some(ttl)),
            ),
            None => earlier,
        }
    }
}

/// The number of records of `batch` that have time left at `now`.
pub open spec fn inserted_count(batch: Seq<RecordView>, now: int) -> nat
    decreases batch.len(),
{
    if batch.len() == 0 {
        0
    } else if time_left(batch.last(), now) is Some {
        inserted_count(batch.drop_last(), now) + 1
    } else {
        inserted_count(batch.drop_last(), now)
    }
}

/// The number of records of `batch` whose expiry is at or before `now`.
pub open spec fn expired_count(batch: Seq<RecordView>, now: int) -> nat
    decreases batch.len(),
{
    if batch.len() == 0 {
        0
    } else if decimal_i64(batch.last().expire_at) is Some && time_left(batch.last(), now)
        is None {
        expired_count(batch.drop_last(), now) + 1
    } else {
        expired_count(batch.drop_last(), now)
    }
}

/// Every record of a readable batch is counted once: as inserted, and then
/// written, or as expired on arrival, and then left out.
pub proof fn lemma_counts_cover_batch(batch: Seq<RecordView>, now: int)
    requires
        readable(batch),
    ensures
        inserted_count(batch, now) + expired_count(batch, now) == batch.len(),
        planned_writes(batch, now).len() == inserted_count(batch, now),
    decreases batch.len(),
{
    if batch.len() > 0 {
        assert forall|i: int| 0 <= i < batch.drop_last().len() implies decimal_i64(
            (#[trigger] batch.drop_last()[i]).expire_at,
        ) is Some by {
            assert(batch.drop_last()[i] == batch[i]);
        }
        lemma_counts_cover_batch(batch.drop_last(), now);
        assert(decimal_i64(batch[batch.len() - 1].expire_at) is Some);
    }
}

/// The seconds that are left at `now` until `expire_at`. The difference of
/// two 64-bit instants always fits the result.
pub fn remaining_ttl(expire_at: i64, now: i64) -> (r: Option<u64>)
    ensures
        r == seconds_left(expire_at as int, now as int),
{
    if expire_at > now {
        let left: i128 = expire_at as i128 - now as i128;
        Some(left as u64)
    } else {
        None
    }
}

/// The request of one batch, and what it counts for.
pub struct BatchPlan {
    /// The writes, ready to be sent as often as it takes.
    pub request: redis::Pipeline,
    /// The number of records that the request writes.
    pub inserted: u64,
    /// The number of records that had expired already and are not written.
    pub expired_on_arrival: u64,
}

/// A record whose expiry is no signed 64-bit decimal.
#[derive(Clone, Debug, PartialEq, Eq)]
pub struct MalformedExpiry {
    /// The place of the first such record in its batch.
    pub index: usize,
}

/// Plans the request of `batch` for the instant `now`, in seconds. A batch
/// with an expiry that cannot be read has no plan; the error names the first
/// such record.
pub fn plan_batch(batch: &Vec<CorrelatedRecord>, now: i64) -> (r: Result<
    BatchPlan,
    MalformedExpiry,
>)
    ensures
        match r {
            Ok(plan) => {
                &&& readable(records_view(batch@))
                &&& queued(plan.request) == planned_writes(records_view(batch@), now as int)
                &&& discarded(plan.request) == first_places(queued(plan.request).len())
                &&& plan.inserted == inserted_count(records_view(batch@), now as int)
                &&& plan.expired_on_arrival == expired_count(records_view(batch@), now as int)
                &&& plan.inserted + plan.expired_on_arrival == batch@.len()
            },
            Err(e) => {
                &&& e.index < batch@.len()
                &&& decimal_i64(batch@[e.index as int].expire_at@) is None
                &&& readable(records_view(batch@).take(e.index as int))
            },
        },
{
    let ghost records = records_view(batch@);
    let mut request: redis::Pipeline = new_request();
    let mut inserted: usize = 0;
    let mut expired: usize = 0;
    let mut i: usize = 0;
    assert(records.take(0) =~= Seq::<RecordView>::empty());
    assert(discarded(request) =~= first_places(0));
    while i < batch.len()
        invariant
            i <= batch@.len(),
            records == records_view(batch@),
            readable(records.take(i as int)),
            queued(request) == planned_writes(records.take(i as int), now as int),
            discarded(request) == first_places(queued(request).len()),
            inserted == inserted_count(records.take(i as int), now as int),
            expired == expired_count(records.take(i as int), now as int),
            inserted + expired == i,
        decreases batch@.len() - i,
    {
        let record: &CorrelatedRecord = &batch[i];
        proof {
            assert(records[i as int] == record@);
            assert(records.take(i + 1).drop_last() =~= records.take(i as int));
            assert(records.take(i + 1).last() == record@);
        }
        match parse_i64(record.expire_at.as_slice()) {
            None => {
                return Err(MalformedExpiry { index: i });
            },
            Some(at) => {
                match remaining_ttl(at, now) {
                    Some(ttl) => {
                        let ghost before = queued(request).len();
                        queue_write(
                            &mut request,
                            record.key.as_slice(),
                            record.value.as_slice(),
                            Some(ttl),
                        );
                        assert(first_places(before).insert(before as int) =~= first_places(
                            before + 1,
                        ));
                        inserted = inserted + 1;
                    },
                    None => {
                        expired = expired + 1;
                    },
                }
            },
        }
        proof {
            assert forall|j: int| 0 <= j < i + 1 implies decimal_i64(
                (#[trigger] records.take(i + 1)[j]).expire_at,
            ) is Some by {
                if j < i {
                    assert(records.take(i + 1)[j] == records.take(i as int)[j]);
                }
            }
        }
        i = i + 1;
    }
    assert(records.take(batch@.len() as int) =~= records);
    Ok(BatchPlan { request, inserted: inserted as u64, expired_on_arrival: expired as u64 })
}

/// What becomes of the writes that never met an expiry.
#[derive(Clone, Copy, PartialEq, Eq, Debug, Structural)]
pub enum LeftoverPolicy {
    /// They are written without a time to live and stay until overwritten.
    Persist,
    /// They are written with this time to live, in seconds.
    ExpireAfter(u64),
}

/// The time to live that `policy` gives to every leftover write.
pub open spec fn leftover_ttl(policy: LeftoverPolicy) -> Option<u64> {
    match policy {
        LeftoverPolicy::Persist => None,
        LeftoverPolicy::ExpireAfter(seconds) => Some(seconds),
    }
}

/// The writes of the leftover entries, one for each entry, in their order.
pub open spec fn leftover_writes(left: Seq<EntryView>, policy: LeftoverPolicy) -> Seq<
    Seq<Seq<u8>>,
> {
    Seq::new(left.len(), |i: int| write_command(left[i].key, left[i].value, leftover_ttl(policy)))
}

/// The request of the leftover entries, and what it counts for.
pub struct LeftoverPlan {
    /// The writes, to be sent once.
    pub request: redis::Pipeline,
    /// The number of entries that the request writes.
    pub without_ttl: u64,
}

/// Plans the one request that writes every leftover entry.
pub fn plan_leftover(left: &Vec<PendingEntry>, policy: LeftoverPolicy) -> (plan: LeftoverPlan)
    ensures
        queued(plan.request) == leftover_writes(entries_view(left@), policy),
        discarded(plan.request) == first_places(left@.len() as nat),
        plan.without_ttl == left@.len(),
{
    let ghost entries = entries_view(left@);
    let ttl: Option<u64> = match policy {
        LeftoverPolicy::Persist => None,
        LeftoverPolicy::ExpireAfter(seconds) => Some(seconds),
    };
    let mut request: redis::Pipeline = new_request();
    let mut i: usize = 0;
    assert(queued(request) =~= leftover_writes(entries.take(0), policy));
    assert(discarded(request) =~= first_places(0));
    while i < left.len()
        invariant
            i <= left@.len(),
            entries == entries_view(left@),
            ttl == leftover_ttl(policy),
            queued(request) == leftover_writes(entries.take(i as int), policy),
            discarded(request) == first_places(i as nat),
        decreases left@.len() - i,
    {
        let entry: &PendingEntry = &left[i];
        queue_write(&mut request, entry.key.as_slice(), entry.value.as_slice(), ttl);
        proof {
            assert(entries[i as int] == entry@);
            assert(queued(request) =~= leftover_writes(entries.take(i + 1), policy));
            assert(discarded(request) =~= first_places((i + 1) as nat));
        }
        i = i + 1;
    }
    assert(entries.take(left@.len() as int) =~= entries);
    LeftoverPlan { request, without_ttl: left.len() as u64 }
}

} // verus!
