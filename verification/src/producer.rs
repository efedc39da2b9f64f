//! The producing side of a run: decoding, correlating and batching, one unit
//! of the stream at a time.

use crate::batcher::buffer_after;
use crate::batcher::buffer_of;
use crate::batcher::released;
use crate::batcher::Batcher;
use crate::command::command_of;
use crate::command::decode;
use crate::command::Command;
use crate::command::CommandView;
use crate::command::WireUnit;
use crate::correlator::distinct_keys;
use crate::correlator::entries_view;
use crate::correlator::outcome_of;
use crate::correlator::pending_after;
use crate::correlator::records_view;
use crate::correlator::CorrelatedRecord;
use crate::correlator::Correlator;
use crate::correlator::DuplicateKey;
use crate::correlator::EntryView;
use crate::correlator::Outcome;
use crate::correlator::OutcomeView;
use crate::correlator::PendingEntry;
use crate::correlator::RecordView;
use crate::replay::replay;
use crate::replay::start_of;
use crate::replay::Trace;
use vstd::prelude::*;

verus! {

/// What one unit of the stream led to.
#[derive(Clone, Debug, PartialEq, Eq)]
pub enum Fed {
    /// A write was taken in and waits for its expiry.
    Stored,
    /// An expiry met its write; the record waits in the batch buffer.
    Buffered,
    /// An expiry met its write and its record filled a batch, which is to be
    /// handed to the workers now.
    Dispatch(Vec<CorrelatedRecord>),
    /// An expiry named a key that is not pending; it is dropped.
    Orphan { key: Vec<u8> },
    /// The unit was neither a write nor an expiry.
    Ignored,
}

pub enum FedView {
    Stored,
    Buffered,
    Dispatch(Seq<RecordView>),
    Orphan { key: Seq<u8> },
    Ignored,
    Duplicate { key: Seq<u8> },
}

impl View for Fed {
    type V = FedView;

    open spec fn view(&self) -> FedView {
        match self {
            Fed::Stored => FedView::Stored,
            Fed::Buffered => FedView::Buffered,
            Fed::Dispatch(batch) => FedView::Dispatch(records_view(batch@)),
            Fed::Orphan { key } => FedView::Orphan { key: key@ },
            Fed::Ignored => FedView::Ignored,
        }
    }
}

/// What `command` leads to when `pending` wait for their expiry and `buffer`
/// waits to fill a batch of `capacity` records.
pub open spec fn fed_of(
    pending: Seq<EntryView>,
    buffer: Seq<RecordView>,
    capacity: nat,
    command: CommandView,
) -> FedView {
    match outcome_of(pending, command) {
        OutcomeView::Stored => FedView::Stored,
        OutcomeView::Matched(record) => match released(buffer, capacity, record) {
            Some(batch) => FedView::Dispatch(batch),
            None => FedView::Buffered,
        },
        OutcomeView::Orphan { key } => FedView::Orphan { key },
        OutcomeView::Ignored => FedView::Ignored,
        OutcomeView::Duplicate { key } => FedView::Duplicate { key },
    }
}

/// The batch buffer after `command`: a record that left the correlator joins
/// it; nothing else changes it.
pub open spec fn buffer_after_command(
    pending: Seq<EntryView>,
    buffer: Seq<RecordView>,
    capacity: nat,
    command: CommandView,
) -> Seq<RecordView> {
    match outcome_of(pending, command) {
        OutcomeView::Matched(record) => buffer_after(buffer, capacity, record),
        _ => buffer,
    }
}

/// The state of the producing side: the writes that wait for their expiry and
/// the records that wait to fill a batch. Both are what the commands taken so
/// far have made of them.
pub struct Producer {
    correlator: Correlator,
    batcher: Batcher,
    taken: Ghost<Seq<CommandView>>,
}

/// What is left when the stream has ended.
#[derive(Clone, Debug, PartialEq, Eq)]
pub struct Closing {
    /// The records that were buffered; the last batch, which may be empty.
    pub last_batch: Vec<CorrelatedRecord>,
    /// The writes that never met an expiry, in the order in which they came.
    pub leftover: Vec<PendingEntry>,
}

impl Producer {
    #[verifier::type_invariant]
    spec fn follows_the_run(self) -> bool {
        let run = replay(start_of(Seq::empty()), self.taken@);
        &&& !run.halted
        &&& self.correlator@ == run.pending
        &&& self.batcher.buffered() == buffer_of(run.records, self.batcher.limit())
    }

    /// The commands taken so far, in order. A write that was refused is not
    /// among them.
    pub closed spec fn taken(&self) -> Seq<CommandView> {
        self.taken@
    }

    /// The run of the commands taken so far.
    pub open spec fn run(&self) -> Trace {
        replay(start_of(Seq::empty()), self.taken())
    }

    /// The writes that wait for their expiry, in the order in which they came.
    pub closed spec fn pending(&self) -> Seq<EntryView> {
        self.correlator@
    }

    /// The records that wait to fill a batch.
    pub closed spec fn buffered(&self) -> Seq<RecordView> {
        self.batcher.buffered()
    }

    /// The number of records that make a batch.
    pub closed spec fn limit(&self) -> nat {
        self.batcher.limit()
    }

    /// True when the producer holds what the run of the commands taken so far
    /// leaves: its pending writes, and of its records those that batching
    /// them leaves in the buffer. It always does.
    pub open spec fn follows(&self) -> bool {
        &&& !self.run().halted
        &&& self.pending() == self.run().pending
        &&& self.buffered() == buffer_of(self.run().records, self.limit())
    }

    /// A producer in place of one whose parts are being worked on.
    fn spare() -> (p: Producer)
        ensures
            p.taken() == Seq::<CommandView>::empty(),
    {
        match Batcher::new(1) {
            Some(batcher) => Producer {
                correlator: Correlator::new(),
                batcher,
                taken: Ghost(Seq::empty()),
            },
            None => vstd::pervasive::unreached(),
        }
    }

    /// A producer that has seen nothing, for batches of `capacity` records.
    /// There is none for batches of no record.
    pub fn new(capacity: usize) -> (r: Option<Producer>)
        ensures
            match r {
                Some(p) => {
                    &&& capacity > 0
                    &&& p.limit() == capacity
                    &&& p.taken() == Seq::<CommandView>::empty()
                    &&& p.pending() == Seq::<EntryView>::empty()
                    &&& p.buffered() == Seq::<RecordView>::empty()
                    &&& p.follows()
                },
                None => capacity == 0,
            },
    {
        match Batcher::new(capacity) {
            Some(batcher) => Some(
                Producer { correlator: Correlator::new(), batcher, taken: Ghost(Seq::empty()) },
            ),
            None => None,
        }
    }

    /// The number of writes that wait for their expiry.
    pub fn pending_count(&self) -> (n: usize)
        ensures
            n == self.pending().len(),
            self.follows(),
    {
        proof {
            use_type_invariant(self);
        }
        self.correlator.pending_count()
    }

    /// The number of records that wait to fill a batch.
    pub fn buffered_count(&self) -> (n: usize)
        ensures
            n == self.buffered().len(),
            n < self.limit(),
            self.follows(),
    {
        proof {
            use_type_invariant(self);
        }
        self.batcher.buffered_count()
    }

    /// Takes one command. A write whose key is still pending is refused and
    /// changes nothing; the run should end there.
    pub fn feed_command(&mut self, command: Command) -> (r: Result<Fed, DuplicateKey>)
        ensures
            final(self).limit() == old(self).limit(),
            final(self).follows(),
            final(self).taken() == if r is Ok {
                old(self).taken().push(command@)
            } else {
                old(self).taken()
            },
            distinct_keys(final(self).pending()),
            final(self).pending() == pending_after(old(self).pending(), command@),
            final(self).buffered() == buffer_after_command(
                old(self).pending(),
                old(self).buffered(),
                old(self).limit(),
                command@,
            ),
            match r {
                Ok(fed) => fed@ == fed_of(
                    old(self).pending(),
                    old(self).buffered(),
                    old(self).limit(),
                    command@,
                ),
                Err(e) => fed_of(
                    old(self).pending(),
                    old(self).buffered(),
                    old(self).limit(),
                    command@,
                ) == (FedView::Duplicate { key: e.key@ }),
            },
    {
        proof {
            use_type_invariant(&*self);
        }
        // The parts are worked on outside the producer, which holds a spare
        // meanwhile, and are put back together at the end.
        let mut whole: Producer = Producer::spare();
        std::mem::swap(self, &mut whole);
        let Producer { correlator, batcher, taken } = whole;
        let mut correlator: Correlator = correlator;
        let mut batcher: Batcher = batcher;
        let ghost seen = taken@;
        let ghost run = replay(start_of(Seq::<EntryView>::empty()), seen);
        proof {
            assert(seen.push(command@).drop_last() =~= seen);
        }
        match correlator.apply(command) {
            Ok(outcome) => {
                let fed: Fed = match outcome {
                    Outcome::Stored => Fed::Stored,
                    Outcome::Matched(record) => {
                        proof {
                            assert(run.records.push(record@).drop_last() =~= run.records);
                        }
                        match batcher.push(record) {
                            Some(batch) => Fed::Dispatch(batch),
                            None => Fed::Buffered,
                        }
                    },
                    Outcome::Orphan { key } => Fed::Orphan { key },
                    Outcome::Ignored => Fed::Ignored,
                };
                *self = Producer { correlator, batcher, taken: Ghost(seen.push(command@)) };
                Ok(fed)
            },
            Err(e) => {
                *self = Producer { correlator, batcher, taken };
                Err(e)
            },
        }
    }

    /// Takes one framed unit of the stream: decodes it and takes the command.
    pub fn feed(&mut self, unit: WireUnit) -> (r: Result<Fed, DuplicateKey>)
        ensures
            final(self).limit() == old(self).limit(),
            final(self).follows(),
            final(self).taken() == if r is Ok {
                old(self).taken().push(command_of(unit@))
            } else {
                old(self).taken()
            },
            distinct_keys(final(self).pending()),
            final(self).pending() == pending_after(old(self).pending(), command_of(unit@)),
            final(self).buffered() == buffer_after_command(
                old(self).pending(),
                old(self).buffered(),
                old(self).limit(),
                command_of(unit@),
            ),
            match r {
                Ok(fed) => fed@ == fed_of(
                    old(self).pending(),
                    old(self).buffered(),
                    old(self).limit(),
                    command_of(unit@),
                ),
                Err(e) => fed_of(
                    old(self).pending(),
                    old(self).buffered(),
                    old(self).limit(),
                    command_of(unit@),
                ) == (FedView::Duplicate { key: e.key@ }),
            },
    {
        self.feed_command(decode(unit))
    }

    /// Ends the stream: hands out the last batch, which holds what was
    /// buffered, and the writes that are left without an expiry.
    pub fn finish(self) -> (closing: Closing)
        ensures
            self.follows(),
            records_view(closing.last_batch@) == self.buffered(),
            entries_view(closing.leftover@) == self.pending(),
            distinct_keys(self.pending()),
    {
        proof {
            use_type_invariant(&self);
        }
        let leftover: Vec<PendingEntry> = self.correlator.into_leftover();
        let last_batch: Vec<CorrelatedRecord> = self.batcher.finish();
        Closing { last_batch, leftover }
    }
}

} // verus!
