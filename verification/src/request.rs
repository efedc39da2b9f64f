//! Pipelined requests: the writes of one batch, queued for a single round trip.

use crate::command::set_name;
use crate::decimal::decimal_digits;
use crate::decimal::format_u64;
use vstd::prelude::*;
use vstd::string::*;

verus! {

#[verifier::external_type_specification]
#[verifier::external_body]
pub struct ExPipeline(redis::Pipeline);

/// The commands that a pipeline holds, in the order in which they are sent.
/// Each command is the list of its arguments, the command's name first.
pub uninterp spec fn queued(p: redis::Pipeline) -> Seq<Seq<Seq<u8>>>;

/// The places, counted from zero in `queued`, of the commands whose reply is
/// thrown away when the pipeline has been executed.
pub uninterp spec fn discarded(p: redis::Pipeline) -> Set<int>;

/// `redis::pipe`: a new pipeline, which holds no command and discards no
/// reply.
#[verifier::external_body]
fn empty_pipeline() -> (p: redis::Pipeline)
    ensures
        queued(p) == Seq::<Seq<Seq<u8>>>::empty(),
        discarded(p) == Set::<int>::empty(),
{
    redis::pipe()
}

/// `redis::Pipeline::cmd`: starts a command behind those already queued. The
/// new command has one argument so far, the bytes of `name`. Which replies
/// are discarded stays as it is.
#[verifier::external_body]
fn start_command(p: &mut redis::Pipeline, name: &str)
    ensures
        queued(*final(p)) == queued(*old(p)).push(seq![name.spec_bytes()]),
        discarded(*final(p)) == discarded(*old(p)),
{
    p.cmd(name);
}

/// `redis::Pipeline::arg` with a byte slice: appends the slice, as one
/// argument, to the command queued last. The earlier commands stay as they
/// are, and so does which replies are discarded. On a pipeline without a
/// command the method panics, so one is required.
#[verifier::external_body]
fn add_argument(p: &mut redis::Pipeline, arg: &[u8])
    requires
        queued(*old(p)).len() > 0,
    ensures
        queued(*final(p)) == queued(*old(p)).drop_last().push(queued(*old(p)).last().push(arg@)),
        discarded(*final(p)) == discarded(*old(p)),
{
    p.arg(arg);
}

/// `redis::Pipeline::ignore`: marks the reply to the command queued last as
/// one to discard; on a pipeline without a command it marks nothing. The
/// commands themselves stay as they are.
#[verifier::external_body]
fn ignore_reply(p: &mut redis::Pipeline)
    ensures
        queued(*final(p)) == queued(*old(p)),
        discarded(*final(p)) == if queued(*old(p)).len() > 0 {
            discarded(*old(p)).insert(queued(*old(p)).len() - 1)
        } else {
            discarded(*old(p))
        },
{
    p.ignore();
}

/// The bytes of the option `EX`, which announces a time to live in seconds.
pub open spec fn option_ex() -> Seq<u8> {
    seq![0x45u8, 0x58u8]
}

/// The command that writes `value` under `key`: with `Some(t)` the key expires
/// `t` seconds after the write, with `None` it stays until it is overwritten.
pub open spec fn write_command(key: Seq<u8>, value: Seq<u8>, ttl: Option<u64>) -> Seq<Seq<u8>> {
    match ttl {
        Some(t) => seq![set_name(), key, value, option_ex(), decimal_digits(t as nat)],
        None => seq![set_name(), key, value],
    }
}

/// The places of the first `n` commands of a request.
pub open spec fn first_places(n: nat) -> Set<int> {
    Set::new(|i: int| 0 <= i < n)
}

/// A new request, with nothing to send.
pub fn new_request() -> (p: redis::Pipeline)
    ensures
        queued(p) == Seq::<Seq<Seq<u8>>>::empty(),
        discarded(p) == Set::<int>::empty(),
{
    empty_pipeline()
}

/// Queues one write behind those that `p` already holds. The write is a full
/// overwrite of the key, and its reply is discarded.
pub fn queue_write(p: &mut redis::Pipeline, key: &[u8], value: &[u8], ttl: Option<u64>)
    ensures
        queued(*final(p)) == queued(*old(p)).push(write_command(key@, value@, ttl)),
        discarded(*final(p)) == discarded(*old(p)).insert(queued(*old(p)).len() as int),
{
    let ghost before = queued(*p);
    proof {
        reveal_strlit("SET");
        reveal_strlit("EX");
        is_ascii_spec_bytes("SET");
        is_ascii_spec_bytes("EX");
        assert("SET".spec_bytes() =~= set_name());
        assert("EX".spec_bytes() =~= option_ex());
    }
    start_command(p, "SET");
    assert(queued(*p).drop_last() =~= before);
    add_argument(p, key);
    assert(queued(*p).drop_last() =~= before);
    add_argument(p, value);
    assert(queued(*p).drop_last() =~= before);
    match ttl {
        Some(t) => {
            add_argument(p, "EX".as_bytes());
            assert(queued(*p).drop_last() =~= before);
            let text: Vec<u8> = format_u64(t);
            add_argument(p, text.as_slice());
            assert(queued(*p).drop_last() =~= before);
            assert(queued(*p).last() =~= write_command(key@, value@, ttl));
        },
        None => {
            assert(queued(*p).last() =~= write_command(key@, value@, ttl));
        },
    }
    ignore_reply(p);
    assert(queued(*p) =~= before.push(write_command(key@, value@, ttl)));
}

} // verus!
