//! Correlation: pairing each written key with the expiry announced for it later.

use crate::command::same_bytes;
use crate::command::Command;
use crate::command::CommandView;
use vstd::prelude::*;

verus! {

/// A write that waits for its expiry.
#[derive(Clone, Debug, PartialEq, Eq)]
pub struct PendingEntry {
    pub key: Vec<u8>,
    pub value: Vec<u8>,
}

/// A write together with the instant at which its key expires, as the
/// decimal text that announced it.
#[derive(Clone, Debug, PartialEq, Eq)]
pub struct CorrelatedRecord {
    pub key: Vec<u8>,
    pub value: Vec<u8>,
    pub expire_at: Vec<u8>,
}

/// A write that was refused because its key was still pending.
#[derive(Clone, Debug, PartialEq, Eq)]
pub struct DuplicateKey {
    pub key: Vec<u8>,
}

/// What one command did to the correlator.
#[derive(Clone, Debug, PartialEq, Eq)]
pub enum Outcome {
    /// A write was taken in and now waits for its expiry.
    Stored,
    /// An expiry met its write; the record leaves the correlator.
    Matched(CorrelatedRecord),
    /// An expiry named a key that is not pending; nothing changed.
    Orphan { key: Vec<u8> },
    /// The command was neither a write nor an expiry.
    Ignored,
}

pub struct EntryView {
    pub key: Seq<u8>,
    pub value: Seq<u8>,
}

pub struct RecordView {
    pub key: Seq<u8>,
    pub value: Seq<u8>,
    pub expire_at: Seq<u8>,
}

/// What a command does: one of the four outcomes, or the refusal of a write
/// whose key is still pending.
pub enum OutcomeView {
    Stored,
    Matched(RecordView),
    Orphan { key: Seq<u8> },
    Ignored,
    Duplicate { key: Seq<u8> },
}

impl View for PendingEntry {
    type V = EntryView;

    open spec fn view(&self) -> EntryView {
        EntryView { key: self.key@, value: self.value@ }
    }
}

impl View for CorrelatedRecord {
    type V = RecordView;

    open spec fn view(&self) -> RecordView {
        RecordView { key: self.key@, value: self.value@, expire_at: self.expire_at@ }
    }
}

impl View for Outcome {
    type V = OutcomeView;

    open spec fn view(&self) -> OutcomeView {
        match self {
            Outcome::Stored => OutcomeView::Stored,
            Outcome::Matched(r) => OutcomeView::Matched(r@),
            Outcome::Orphan { key } => OutcomeView::Orphan { key: key@ },
            Outcome::Ignored => OutcomeView::Ignored,
        }
    }
}

/// The pending entries that a vector holds, in its order.
pub open spec fn entries_view(v: Seq<PendingEntry>) -> Seq<EntryView> {
    v.map_values(|e: PendingEntry| e@)
}

/// The records that a vector holds, in its order.
pub open spec fn records_view(v: Seq<CorrelatedRecord>) -> Seq<RecordView> {
    v.map_values(|r: CorrelatedRecord| r@)
}

/// True when `key` is pending in `p`.
pub open spec fn has_key(p: Seq<EntryView>, key: Seq<u8>) -> bool {
    exists|i: int| 0 <= i < p.len() && (#[trigger] p[i]).key == key
}

/// A place at which `key` is pending in `p`; the only one where no key is
/// pending twice.
pub open spec fn position_of(p: Seq<EntryView>, key: Seq<u8>) -> int {
    choose|i: int| 0 <= i < p.len() && (#[trigger] p[i]).key == key
}

/// True when no key is pending twice in `p`.
pub open spec fn distinct_keys(p: Seq<EntryView>) -> bool {
    forall|i: int, j: int|
        0 <= i < j < p.len() ==> (#[trigger] p[i]).key != (#[trigger] p[j]).key
}

/// What `command` does when the entries `p` are pending.
pub open spec fn outcome_of(p: Seq<EntryView>, command: CommandView) -> OutcomeView {
    match command {
        CommandView::SetValue { key, value } => {
            if has_key(p, key) {
                OutcomeView::Duplicate { key }
            } else {
                OutcomeView::Stored
            }
        },
        CommandView::ExpireAt { key, at } => {
            if has_key(p, key) {
                OutcomeView::Matched(
                    RecordView { key, value: p[position_of(p, key)].value, expire_at: at },
                )
            } else {
                OutcomeView::Orphan { key }
            }
        },
        CommandView::Other => OutcomeView::Ignored,
    }
}

/// The entries that are pending after `command`, when `p` were pending before
/// it. A write joins them at the end unless its key is pending already; an
/// expiry takes the entry of its key away; nothing else changes them.
pub open spec fn pending_after(p: Seq<EntryView>, command: CommandView) -> Seq<EntryView> {
    match command {
        CommandView::SetValue { key, value } => {
            if has_key(p, key) {
                p
            } else {
                p.push(EntryView { key, value })
            }
        },
        CommandView::ExpireAt { key, at } => {
            if has_key(p, key) {
                p.remove(position_of(p, key))
            } else {
                p
            }
        },
        CommandView::Other => p,
    }
}

/// The writes that wait for their expiry, in the order in which they came.
/// No key waits twice.
pub struct Correlator {
    entries: Vec<PendingEntry>,
}

impl View for Correlator {
    type V = Seq<EntryView>;

    closed spec fn view(&self) -> Seq<EntryView> {
        entries_view(self.entries@)
    }
}

impl Correlator {
    #[verifier::type_invariant]
    spec fn keys_are_distinct(self) -> bool {
        distinct_keys(entries_view(self.entries@))
    }

    /// A correlator in which nothing is pending.
    pub fn new() -> (c: Correlator)
        ensures
            c@ == Seq::<EntryView>::empty(),
            distinct_keys(c@),
    {
        let c = Correlator { entries: Vec::new() };
        assert(c@ =~= Seq::<EntryView>::empty());
        c
    }

    /// The number of pending entries.
    pub fn pending_count(&self) -> (n: usize)
        ensures
            n == self@.len(),
            distinct_keys(self@),
    {
        proof {
            use_type_invariant(self);
        }
        self.entries.len()
    }

    /// The place at which `key` is pending, if it is.
    fn find(&self, key: &[u8]) -> (r: Option<usize>)
        ensures
            distinct_keys(self@),
            match r {
                Some(i) => i < self@.len() && self@[i as int].key == key@ && i == position_of(
                    self@,
                    key@,
                ) && has_key(self@, key@),
                None => !has_key(self@, key@),
            },
    {
        proof {
            use_type_invariant(self);
        }
        let mut i: usize = 0;
        while i < self.entries.len()
            invariant
                i <= self.entries@.len(),
                self@.len() == self.entries@.len(),
                distinct_keys(self@),
                forall|j: int| 0 <= j < i ==> (#[trigger] self@[j]).key != key@,
            decreases self.entries@.len() - i,
        {
            assert(self@[i as int] == self.entries@[i as int]@);
            if same_bytes(self.entries[i].key.as_slice(), key) {
                assert(self@[i as int].key == key@);
                return Some(i);
            }
            i = i + 1;
        }
        None
    }

    /// Tells whether `key` is pending.
    pub fn is_pending(&self, key: &[u8]) -> (r: bool)
        ensures
            r == has_key(self@, key@),
    {
        self.find(key).is_some()
    }

    /// Takes in the write of `value` under `key`. A key that is still pending
    /// is refused and nothing changes: the value that waits is never replaced.
    pub fn set(&mut self, key: Vec<u8>, value: Vec<u8>) -> (r: Result<(), DuplicateKey>)
        ensures
            distinct_keys(final(self)@),
            final(self)@ == pending_after(
                old(self)@,
                CommandView::SetValue { key: key@, value: value@ },
            ),
            match r {
                Ok(_) => !has_key(old(self)@, key@),
                Err(e) => has_key(old(self)@, key@) && e.key@ == key@,
            },
    {
        match self.find(key.as_slice()) {
            Some(_) => Err(DuplicateKey { key }),
            None => {
                let ghost before = self@;
                let ghost entry = EntryView { key: key@, value: value@ };
                let mut entries: Vec<PendingEntry> = Vec::new();
                std::mem::swap(&mut self.entries, &mut entries);
                entries.push(PendingEntry { key, value });
                assert(entries_view(entries@) =~= before.push(entry));
                self.entries = entries;
                Ok(())
            },
        }
    }

    /// Announces that `key` expires at `at`. Where the key is pending, its
    /// entry leaves the correlator and comes back as a record with the stored
    /// key and value and with `at`. Where it is not, nothing changes.
    pub fn expire_at(&mut self, key: &[u8], at: Vec<u8>) -> (r: Option<CorrelatedRecord>)
        ensures
            distinct_keys(final(self)@),
            final(self)@ == pending_after(
                old(self)@,
                CommandView::ExpireAt { key: key@, at: at@ },
            ),
            match r {
                Some(record) => outcome_of(
                    old(self)@,
                    CommandView::ExpireAt { key: key@, at: at@ },
                ) == OutcomeView::Matched(record@),
                None => !has_key(old(self)@, key@),
            },
    {
        match self.find(key) {
            Some(i) => {
                let ghost before = self@;
                let mut entries: Vec<PendingEntry> = Vec::new();
                std::mem::swap(&mut self.entries, &mut entries);
                let entry: PendingEntry = entries.remove(i);
                assert(entries_view(entries@) =~= before.remove(i as int));
                assert(entry@ == before[i as int]);
                self.entries = entries;
                Some(CorrelatedRecord { key: entry.key, value: entry.value, expire_at: at })
            },
            None => None,
        }
    }

    /// Applies one command.
    pub fn apply(&mut self, command: Command) -> (r: Result<Outcome, DuplicateKey>)
        ensures
            distinct_keys(final(self)@),
            final(self)@ == pending_after(old(self)@, command@),
            match r {
                Ok(outcome) => outcome@ == outcome_of(old(self)@, command@),
                Err(e) => outcome_of(old(self)@, command@) == (OutcomeView::Duplicate {
                    key: e.key@,
                }),
            },
    {
        match command {
            Command::SetValue { key, value } => {
                match self.set(key, value) {
                    Ok(_) => Ok(Outcome::Stored),
                    Err(e) => Err(e),
                }
            },
            Command::ExpireAt { key, at } => {
                match self.expire_at(key.as_slice(), at) {
                    Some(record) => Ok(Outcome::Matched(record)),
                    None => Ok(Outcome::Orphan { key }),
                }
            },
            Command::Other => {
                proof {
                    use_type_invariant(&*self);
                }
                Ok(Outcome::Ignored)
            },
        }
    }

    /// Ends the correlation: hands out the entries that never met an expiry,
    /// in the order in which they came.
    pub fn into_leftover(self) -> (left: Vec<PendingEntry>)
        ensures
            entries_view(left@) == self@,
            distinct_keys(self@),
    {
        proof {
            use_type_invariant(&self);
        }
        self.entries
    }
}

} // verus!
