//! Replays a stream of key writes and expiry announcements into a target store.
//!
//! A decoded command stream is correlated into records that pair each written
//! key with the expiry later announced for it, the records are grouped into
//! batches, and each batch becomes one pipelined request whose writes carry the
//! time to live that is left when the batch is handled.
//!
//! - `command`: the commands of the stream and how a framed unit is told apart.
//! - `correlator`: the pending writes and what each command does to them.
//! - `replay`: the run of a whole stream, and what holds of every run.
//! - `batcher`: batches of a fixed capacity.
//! - `producer`: the three steps above, taken together for one unit at a time.
//! - `decimal`: the decimal text of expiry instants and times to live.
//! - `request`: pipelined requests, built with the `redis` crate.
//! - `plan`: the request and the counts of a batch and of the leftover writes.
//! - `worker`: when a worker sends, waits, reconnects and counts.
//! - `store`: why sending a request twice does no harm.
//! - `totals`: the counts of a run, and why they add up.
//! - `settings`: what a run is configured with.

pub mod batcher;
pub mod command;
pub mod correlator;
pub mod decimal;
pub mod plan;
pub mod producer;
pub mod replay;
pub mod request;
pub mod settings;
pub mod store;
pub mod totals;
pub mod worker;
