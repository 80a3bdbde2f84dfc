//! The client's tunables: the concurrency cap and the retry strategy.

use vstd::prelude::*;
use crate::retry::{DeadlineRetryStrategy, strategy_valid, INITIAL_PAUSE_MICROS};

verus! {

/// The options a client is built with: how many calls may be in flight
/// at once, and the retry strategy fresh calls reset from.
#[derive(Debug, Clone, Copy)]
pub struct ClientOptions {
    pub concurrency: i64,
    pub retry_strategy: DeadlineRetryStrategy,
}

impl Default for ClientOptions {
    /// A thousand concurrent calls and a five-minute retry deadline.
    fn default() -> (r: Self)
        ensures
            r.concurrency == 1000,
            r.retry_strategy.timeout_micros == 300_000_000u64,
            r.retry_strategy.retries == 0,
            r.retry_strategy.pause_base_micros == INITIAL_PAUSE_MICROS,
            strategy_valid(r.retry_strategy),
    {
        ClientOptions {
            concurrency: 1000,
            retry_strategy: DeadlineRetryStrategy::new(300_000_000),
        }
    }
}

} // verus!
