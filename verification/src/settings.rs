//! The settings of a run.

use crate::plan::LeftoverPolicy;
use vstd::prelude::*;

verus! {

/// What a run is configured with.
#[derive(Clone, Copy, PartialEq, Eq, Debug, Structural)]
pub struct Settings {
    /// The number of records that make a batch.
    pub batch_capacity: usize,
    /// The number of batches that may wait between the producer and the
    /// workers before the producer has to wait.
    pub channel_capacity: usize,
    /// The number of workers.
    pub workers: usize,
    /// The number of sent requests after which a worker renews its connection.
    pub reconnect_every: u64,
    /// The seconds that a worker waits after a failed request.
    pub backoff_seconds: u64,
    /// What becomes of the writes that never met an expiry.
    pub leftover: LeftoverPolicy,
}

/// True when a run can be made with `s`: a batch holds a record, there is a
/// worker to handle it, and the connection is renewed after some request.
pub open spec fn usable(s: Settings) -> bool {
    s.batch_capacity > 0 && s.workers > 0 && s.reconnect_every > 0
}

impl Settings {
    /// The settings that have been in use: batches of 200 records, 1000
    /// batches in the channel, 128 workers that renew their connection after
    /// every 100 requests and wait 2 seconds after a failure, and an hour to
    /// live for the leftover writes.
    pub fn standard() -> (s: Settings)
        ensures
            usable(s),
            s == (Settings {
                batch_capacity: 200,
                channel_capacity: 1000,
                workers: 128,
                reconnect_every: 100,
                backoff_seconds: 2,
                leftover: LeftoverPolicy::ExpireAfter(3600),
            }),
    {
        Settings {
            batch_capacity: 200,
            channel_capacity: 1000,
            workers: 128,
            reconnect_every: 100,
            backoff_seconds: 2,
            leftover: LeftoverPolicy::ExpireAfter(3600),
        }
    }

    /// Tells whether a run can be made with these settings.
    pub fn is_usable(&self) -> (r: bool)
        ensures
            r == usable(*self),
    {
        self.batch_capacity > 0 && self.workers > 0 && self.reconnect_every > 0
    }
}

} // verus!
