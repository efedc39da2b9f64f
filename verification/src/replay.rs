//! What a whole stream of commands does to the correlator, and what holds of
//! every stream.

use crate::command::CommandView;
use crate::correlator::distinct_keys;
use crate::correlator::has_key;
use crate::correlator::outcome_of;
use crate::correlator::pending_after;
use crate::correlator::position_of;
use crate::correlator::EntryView;
use crate::correlator::OutcomeView;
use crate::correlator::RecordView;
use vstd::prelude::*;

verus! {

/// The state of a run after some of its commands.
pub struct Trace {
    /// The writes that wait for their expiry.
    pub pending: Seq<EntryView>,
    /// The records that left the correlator so far, in order.
    pub records: Seq<RecordView>,
    /// The number of writes taken in.
    pub accepted: nat,
    /// The number of expiries that named no pending key.
    pub orphans: nat,
    /// True once a write was refused; the run takes no command after that.
    pub halted: bool,
}

/// The state of a run that starts with `pending` and has seen no command.
pub open spec fn start_of(pending: Seq<EntryView>) -> Trace {
    Trace { pending, records: Seq::empty(), accepted: 0, orphans: 0, halted: false }
}

/// The state after one more command.
pub open spec fn advance(t: Trace, command: CommandView) -> Trace {
    if t.halted {
        t
    } else {
        match outcome_of(t.pending, command) {
            OutcomeView::Stored => Trace {
                pending: pending_after(t.pending, command),
                accepted: t.accepted + 1,
                ..t
            },
            OutcomeView::Matched(record) => Trace {
                pending: pending_after(t.pending, command),
                records: t.records.push(record),
                ..t
            },
            OutcomeView::Orphan { key } => Trace { orphans: t.orphans + 1, ..t },
            OutcomeView::Ignored => t,
            OutcomeView::Duplicate { key } => Trace { halted: true, ..t },
        }
    }
}

/// The state after the commands `commands`, taken in order from `t`.
pub open spec fn replay(t: Trace, commands: Seq<CommandView>) -> Trace
    decreases commands.len(),
{
    if commands.len() == 0 {
        t
    } else {
        advance(replay(t, commands.drop_last()), commands.last())
    }
}

/// True when `command` is a write or an expiry of `key`.
pub open spec fn names_key(command: CommandView, key: Seq<u8>) -> bool {
    match command {
        CommandView::SetValue { key: k, value } => k == key,
        CommandView::ExpireAt { key: k, at } => k == key,
        CommandView::Other => false,
    }
}

/// The value that waits under `key` in `p`.
pub open spec fn value_of(p: Seq<EntryView>, key: Seq<u8>) -> Seq<u8> {
    p[position_of(p, key)].value
}

/// No command makes a key pending twice.
pub proof fn lemma_step_keeps_keys_distinct(p: Seq<EntryView>, command: CommandView)
    requires
        distinct_keys(p),
    ensures
        distinct_keys(pending_after(p, command)),
{
    let q = pending_after(p, command);
    match command {
        CommandView::SetValue { key, value } => {
            if !has_key(p, key) {
                assert forall|i: int, j: int| 0 <= i < j < q.len() implies (#[trigger] q[i]).key != (
                #[trigger] q[j]).key by {
                    if j == p.len() {
                        assert(q[i] == p[i]);
                    } else {
                        assert(q[i] == p[i] && q[j] == p[j]);
                    }
                }
            }
        },
        CommandView::ExpireAt { key, at } => {
            if has_key(p, key) {
                let k = position_of(p, key);
                assert forall|i: int, j: int| 0 <= i < j < q.len() implies (#[trigger] q[i]).key != (
                #[trigger] q[j]).key by {
                    let pi = if i < k {
                        i
                    } else {
                        i + 1
                    };
                    let pj = if j < k {
                        j
                    } else {
                        j + 1
                    };
                    assert(q[i] == p[pi] && q[j] == p[pj]);
                }
            }
        },
        CommandView::Other => {},
    }
}

/// A command on another key leaves the entry of `key` as it is.
pub proof fn lemma_other_key_leaves_entry(p: Seq<EntryView>, command: CommandView, key: Seq<u8>)
    requires
        distinct_keys(p),
        has_key(p, key),
        !names_key(command, key),
    ensures
        distinct_keys(pending_after(p, command)),
        has_key(pending_after(p, command), key),
        value_of(pending_after(p, command), key) == value_of(p, key),
{
    lemma_step_keeps_keys_distinct(p, command);
    let q = pending_after(p, command);
    let at = position_of(p, key);
    match command {
        CommandView::SetValue { key: k, value } => {
            if !has_key(p, k) {
                assert(q[at] == p[at]);
                assert(has_key(q, key));
                let found = position_of(q, key);
                assert(found == at) by {
                    if found != at {
                        assert(q[found].key == q[at].key);
                    }
                }
            }
        },
        CommandView::ExpireAt { key: k, at: instant } => {
            if has_key(p, k) {
                let gone = position_of(p, k);
                assert(gone != at);
                let moved = if at < gone {
                    at
                } else {
                    at - 1
                };
                assert(q[moved] == p[at]);
                assert(has_key(q, key));
                let found = position_of(q, key);
                assert(found == moved) by {
                    if found != moved {
                        assert(q[found].key == q[moved].key);
                    }
                }
            }
        },
        CommandView::Other => {},
    }
}

/// Commands on other keys, however many, leave the entry of `key` as it is.
pub proof fn lemma_other_keys_leave_entry(
    p: Seq<EntryView>,
    between: Seq<CommandView>,
    key: Seq<u8>,
)
    requires
        distinct_keys(p),
        has_key(p, key),
        forall|i: int| 0 <= i < between.len() ==> !names_key(#[trigger] between[i], key),
    ensures
        distinct_keys(replay(start_of(p), between).pending),
        has_key(replay(start_of(p), between).pending, key),
        value_of(replay(start_of(p), between).pending, key) == value_of(p, key),
    decreases between.len(),
{
    if between.len() > 0 {
        let earlier = between.drop_last();
        assert forall|i: int| 0 <= i < earlier.len() implies !names_key(
            #[trigger] earlier[i],
            key,
        ) by {
            assert(earlier[i] == between[i]);
        }
        lemma_other_keys_leave_entry(p, earlier, key);
        let t = replay(start_of(p), earlier);
        if !t.halted {
            lemma_other_key_leaves_entry(t.pending, between.last(), key);
        }
    }
}

/// A write that is taken in waits under its key with its value.
pub proof fn lemma_write_is_pending(p: Seq<EntryView>, key: Seq<u8>, value: Seq<u8>)
    requires
        distinct_keys(p),
        !has_key(p, key),
    ensures
        distinct_keys(pending_after(p, CommandView::SetValue { key, value })),
        has_key(pending_after(p, CommandView::SetValue { key, value }), key),
        value_of(pending_after(p, CommandView::SetValue { key, value }), key) == value,
{
    let command = CommandView::SetValue { key, value };
    lemma_step_keeps_keys_distinct(p, command);
    let q = pending_after(p, command);
    assert(q[p.len() as int].key == key);
    let found = position_of(q, key);
    if found != p.len() {
        assert(q[found] == p[found]);
    }
}

/// Correlation: a write of `value` under `key`, then any commands on other
/// keys, then the expiry of `key` at `at` gives the record of `key`, `value`
/// and `at`, whatever the commands in between were, and the key is pending no
/// longer.
pub proof fn lemma_expiry_meets_its_write(
    p: Seq<EntryView>,
    key: Seq<u8>,
    value: Seq<u8>,
    at: Seq<u8>,
    between: Seq<CommandView>,
)
    requires
        distinct_keys(p),
        !has_key(p, key),
        forall|i: int| 0 <= i < between.len() ==> !names_key(#[trigger] between[i], key),
    ensures
        ({
            let written = pending_after(p, CommandView::SetValue { key, value });
            let before = replay(start_of(written), between).pending;
            let expiry = CommandView::ExpireAt { key, at };
            &&& outcome_of(before, expiry) == OutcomeView::Matched(
                RecordView { key, value, expire_at: at },
            )
            &&& !has_key(pending_after(before, expiry), key)
        }),
{
    let written = pending_after(p, CommandView::SetValue { key, value });
    lemma_write_is_pending(p, key, value);
    lemma_other_keys_leave_entry(written, between, key);
    let before = replay(start_of(written), between).pending;
    lemma_matched_key_is_gone(before, key, at);
}

/// An expiry that meets its write takes the key out of the pending entries.
pub proof fn lemma_matched_key_is_gone(p: Seq<EntryView>, key: Seq<u8>, at: Seq<u8>)
    requires
        distinct_keys(p),
        has_key(p, key),
    ensures
        !has_key(pending_after(p, CommandView::ExpireAt { key, at }), key),
        pending_after(p, CommandView::ExpireAt { key, at }).len() == p.len() - 1,
{
    let q = pending_after(p, CommandView::ExpireAt { key, at });
    let gone = position_of(p, key);
    assert forall|i: int| 0 <= i < q.len() implies (#[trigger] q[i]).key != key by {
        let from = if i < gone {
            i
        } else {
            i + 1
        };
        assert(q[i] == p[from]);
        if from < gone {
            assert(p[from].key != p[gone].key);
        } else {
            assert(p[gone].key != p[from].key);
        }
    }
}

/// Orphans: the expiry of a key that is not pending gives no record and
/// changes nothing but the count of orphans.
pub proof fn lemma_orphan_changes_nothing(t: Trace, key: Seq<u8>, at: Seq<u8>)
    requires
        !t.halted,
        !has_key(t.pending, key),
    ensures
        outcome_of(t.pending, CommandView::ExpireAt { key, at }) == (OutcomeView::Orphan { key }),
        advance(t, CommandView::ExpireAt { key, at }) == (Trace { orphans: t.orphans + 1, ..t }),
{
}

/// Orphans: once an expiry has met the write of `key`, a second expiry of
/// `key` is an orphan.
pub proof fn lemma_second_expiry_is_orphan(
    p: Seq<EntryView>,
    key: Seq<u8>,
    first: Seq<u8>,
    second: Seq<u8>,
)
    requires
        distinct_keys(p),
        has_key(p, key),
    ensures
        ({
            let after = pending_after(p, CommandView::ExpireAt { key, at: first });
            let again = CommandView::ExpireAt { key, at: second };
            &&& outcome_of(after, again) == (OutcomeView::Orphan { key })
            &&& pending_after(after, again) == after
        }),
{
    lemma_matched_key_is_gone(p, key, first);
}

/// Duplicates: a second write of `key`, with no expiry of `key` since the
/// first, is refused, whatever came in between on other keys. The first value
/// still waits, and the run halts.
pub proof fn lemma_second_write_is_refused(
    p: Seq<EntryView>,
    key: Seq<u8>,
    first: Seq<u8>,
    second: Seq<u8>,
    between: Seq<CommandView>,
)
    requires
        distinct_keys(p),
        !has_key(p, key),
        forall|i: int| 0 <= i < between.len() ==> !names_key(#[trigger] between[i], key),
    ensures
        ({
            let written = pending_after(p, CommandView::SetValue { key, value: first });
            let t = replay(start_of(written), between);
            let again = CommandView::SetValue { key, value: second };
            &&& outcome_of(t.pending, again) == (OutcomeView::Duplicate { key })
            &&& pending_after(t.pending, again) == t.pending
            &&& value_of(t.pending, key) == first
            &&& advance(t, again).halted
            &&& advance(t, again).accepted == t.accepted
        }),
{
    let written = pending_after(p, CommandView::SetValue { key, value: first });
    lemma_write_is_pending(p, key, first);
    lemma_other_keys_leave_entry(written, between, key);
}

/// Accounting: in a run that starts with nothing pending, every write that
/// was taken in either left as a record or is still pending.
pub proof fn lemma_writes_are_accounted_for(commands: Seq<CommandView>)
    ensures
        ({
            let t = replay(start_of(Seq::empty()), commands);
            &&& distinct_keys(t.pending)
            &&& t.accepted == t.records.len() + t.pending.len()
        }),
    decreases commands.len(),
{
    if commands.len() > 0 {
        lemma_writes_are_accounted_for(commands.drop_last());
        let t = replay(start_of(Seq::empty()), commands.drop_last());
        let command = commands.last();
        lemma_step_keeps_keys_distinct(t.pending, command);
        match command {
            CommandView::ExpireAt { key, at } => {
                if has_key(t.pending, key) {
                    lemma_matched_key_is_gone(t.pending, key, at);
                }
            },
            _ => {},
        }
    }
}

} // verus!
