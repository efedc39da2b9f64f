//! Batching: grouping correlated records into batches of a fixed capacity.

use crate::correlator::records_view;
use crate::correlator::CorrelatedRecord;
use crate::correlator::RecordView;
use vstd::prelude::*;

verus! {

/// The batch that leaves when `record` joins `buffer`: the buffer with the
/// record, where that fills it; none where it does not.
pub open spec fn released(buffer: Seq<RecordView>, capacity: nat, record: RecordView) -> Option<
    Seq<RecordView>,
> {
    if buffer.len() + 1 == capacity {
        Some(buffer.push(record))
    } else {
        None
    }
}

/// The buffer after `record` joined it: empty where that filled it, one
/// record longer where it did not.
pub open spec fn buffer_after(buffer: Seq<RecordView>, capacity: nat, record: RecordView) -> Seq<
    RecordView,
> {
    if buffer.len() + 1 == capacity {
        Seq::empty()
    } else {
        buffer.push(record)
    }
}

/// What is buffered after `records` joined an empty buffer one by one.
pub open spec fn buffer_of(records: Seq<RecordView>, capacity: nat) -> Seq<RecordView>
    decreases records.len(),
{
    if records.len() == 0 {
        Seq::empty()
    } else {
        buffer_after(buffer_of(records.drop_last(), capacity), capacity, records.last())
    }
}

/// The batches that left while `records` joined an empty buffer one by one.
pub open spec fn batches_of(records: Seq<RecordView>, capacity: nat) -> Seq<Seq<RecordView>>
    decreases records.len(),
{
    if records.len() == 0 {
        Seq::empty()
    } else {
        let earlier = batches_of(records.drop_last(), capacity);
        match released(buffer_of(records.drop_last(), capacity), capacity, records.last()) {
            Some(batch) => earlier.push(batch),
            None => earlier,
        }
    }
}

/// Every batch that a run hands on: those that left full, then the last one,
/// which holds what was buffered when the stream ended and may be empty.
pub open spec fn all_batches(records: Seq<RecordView>, capacity: nat) -> Seq<Seq<RecordView>> {
    batches_of(records, capacity).push(buffer_of(records, capacity))
}

/// Batching loses nothing and reorders nothing: the batches of a run, one
/// after the other, are the records that were pushed. Every batch but the
/// last is full, and the last is not.
pub proof fn lemma_batches_keep_every_record(records: Seq<RecordView>, capacity: nat)
    requires
        capacity > 0,
    ensures
        all_batches(records, capacity).flatten() == records,
        batches_of(records, capacity).flatten() + buffer_of(records, capacity) == records,
        buffer_of(records, capacity).len() < capacity,
        forall|i: int|
            0 <= i < batches_of(records, capacity).len() ==> (#[trigger] batches_of(
                records,
                capacity,
            )[i]).len() == capacity,
    decreases records.len(),
{
    broadcast use Seq::lemma_flatten_push;

    if records.len() == 0 {
        assert(Seq::<Seq<RecordView>>::empty().flatten() =~= Seq::<RecordView>::empty());
        assert(batches_of(records, capacity).flatten() + buffer_of(records, capacity)
            =~= records);
    } else {
        let earlier = records.drop_last();
        lemma_batches_keep_every_record(earlier, capacity);
        let buffer = buffer_of(earlier, capacity);
        let batches = batches_of(earlier, capacity);
        assert(batches.flatten() + buffer == earlier);
        assert(records =~= earlier.push(records.last()));
        if buffer.len() + 1 == capacity {
            let batch = buffer.push(records.last());
            assert(batches.push(batch).flatten() =~= batches.flatten() + batch);
            assert(batches.flatten() + batch =~= (batches.flatten() + buffer).push(
                records.last(),
            ));
            assert(batches_of(records, capacity).flatten() + buffer_of(records, capacity)
                =~= records);
        } else {
            assert(batches.flatten() + buffer.push(records.last()) =~= (batches.flatten()
                + buffer).push(records.last()));
        }
    }
    assert(all_batches(records, capacity).flatten() =~= batches_of(records, capacity).flatten()
        + buffer_of(records, capacity));
}

/// The records that wait to fill a batch. The buffer is never full: the
/// record that fills it leaves with the batch.
pub struct Batcher {
    buffer: Vec<CorrelatedRecord>,
    capacity: usize,
}

impl Batcher {
    #[verifier::type_invariant]
    spec fn has_room(self) -> bool {
        self.buffer@.len() < self.capacity
    }

    /// The records that are buffered, in the order in which they came.
    pub closed spec fn buffered(&self) -> Seq<RecordView> {
        records_view(self.buffer@)
    }

    /// The number of records that make a batch.
    pub closed spec fn limit(&self) -> nat {
        self.capacity as nat
    }

    /// A batcher with an empty buffer, for batches of `capacity` records. A
    /// batch of no record cannot be filled: there is no batcher for it.
    pub fn new(capacity: usize) -> (r: Option<Batcher>)
        ensures
            match r {
                Some(b) => capacity > 0 && b.limit() == capacity && b.buffered() == Seq::<
                    RecordView,
                >::empty(),
                None => capacity == 0,
            },
    {
        if capacity == 0 {
            None
        } else {
            let b = Batcher { buffer: Vec::new(), capacity };
            assert(b.buffered() =~= Seq::<RecordView>::empty());
            Some(b)
        }
    }

    /// The number of records that make a batch.
    pub fn capacity(&self) -> (n: usize)
        ensures
            n == self.limit(),
            n > 0,
    {
        proof {
            use_type_invariant(self);
        }
        self.capacity
    }

    /// The number of buffered records.
    pub fn buffered_count(&self) -> (n: usize)
        ensures
            n == self.buffered().len(),
            n < self.limit(),
    {
        proof {
            use_type_invariant(self);
        }
        self.buffer.len()
    }

    /// Adds a record. Where it fills the batch, the batch leaves, the record
    /// last in it, and the buffer is empty again.
    pub fn push(&mut self, record: CorrelatedRecord) -> (r: Option<Vec<CorrelatedRecord>>)
        ensures
            final(self).limit() == old(self).limit(),
            final(self).buffered() == buffer_after(
                old(self).buffered(),
                old(self).limit(),
                record@,
            ),
            match r {
                Some(batch) => released(old(self).buffered(), old(self).limit(), record@) == Some(
                    records_view(batch@),
                ),
                None => released(old(self).buffered(), old(self).limit(), record@) is None,
            },
    {
        proof {
            use_type_invariant(&*self);
        }
        let ghost before = self.buffered();
        let mut buffer: Vec<CorrelatedRecord> = Vec::new();
        std::mem::swap(&mut self.buffer, &mut buffer);
        buffer.push(record);
        assert(records_view(buffer@) =~= before.push(record@));
        if buffer.len() == self.capacity {
            assert(self.buffered() =~= Seq::<RecordView>::empty());
            Some(buffer)
        } else {
            self.buffer = buffer;
            None
        }
    }

    /// Ends the batching: hands out what is buffered, which may be nothing.
    pub fn finish(self) -> (last: Vec<CorrelatedRecord>)
        ensures
            records_view(last@) == self.buffered(),
    {
        self.buffer
    }
}

} // verus!
