//! A model of the target store, as far as the writes of a request tell: what
//! each key holds once the request has been executed.

use crate::command::set_name;
use crate::request::option_ex;
use vstd::prelude::*;

verus! {

/// What the store holds under one key: the value, and the time to live with
/// which it was written, as its decimal text; none where it stays.
pub struct Kept {
    pub value: Seq<u8>,
    pub ttl: Option<Seq<u8>>,
}

/// The store after one command. A write replaces whatever its key held, the
/// time to live included; a command that is no write changes nothing.
pub open spec fn store_after_command(store: Map<Seq<u8>, Kept>, command: Seq<Seq<u8>>) -> Map<
    Seq<u8>,
    Kept,
> {
    if command.len() == 3 && command[0] == set_name() {
        store.insert(command[1], Kept { value: command[2], ttl: None })
    } else if command.len() == 5 && command[0] == set_name() && command[3] == option_ex() {
        store.insert(command[1], Kept { value: command[2], ttl: Some(command[4]) })
    } else {
        store
    }
}

/// The store after the commands of `request`, executed in order.
pub open spec fn store_after(store: Map<Seq<u8>, Kept>, request: Seq<Seq<Seq<u8>>>) -> Map<
    Seq<u8>,
    Kept,
>
    decreases request.len(),
{
    if request.len() == 0 {
        store
    } else {
        store_after_command(store_after(store, request.drop_last()), request.last())
    }
}

/// A request overlays the store with what it writes: the keys that it names
/// hold what it wrote last under them, and every other key is untouched.
pub proof fn lemma_request_overlays_store(store: Map<Seq<u8>, Kept>, request: Seq<Seq<Seq<u8>>>)
    ensures
        store_after(store, request) == store.union_prefer_right(
            store_after(Map::empty(), request),
        ),
    decreases request.len(),
{
    if request.len() == 0 {
        assert(store =~= store.union_prefer_right(Map::<Seq<u8>, Kept>::empty()));
    } else {
        lemma_request_overlays_store(store, request.drop_last());
        let written = store_after(Map::<Seq<u8>, Kept>::empty(), request.drop_last());
        let command = request.last();
        assert(store_after_command(store.union_prefer_right(written), command)
            =~= store.union_prefer_right(store_after_command(written, command)));
    }
}

/// Retry: executing a request a second time leaves the store as the first
/// execution left it.
pub proof fn lemma_second_execution_changes_nothing(
    store: Map<Seq<u8>, Kept>,
    request: Seq<Seq<Seq<u8>>>,
)
    ensures
        store_after(store_after(store, request), request) == store_after(store, request),
{
    let written = store_after(Map::<Seq<u8>, Kept>::empty(), request);
    lemma_request_overlays_store(store, request);
    lemma_request_overlays_store(store_after(store, request), request);
    assert(store.union_prefer_right(written).union_prefer_right(written)
        =~= store.union_prefer_right(written));
}

} // verus!
