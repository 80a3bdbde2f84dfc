//! The retry strategy: a static classification of every error kind,
//! eligibility keyed by the attempted operation, and a deadline-bounded
//! exponential backoff with jitter.

use vstd::prelude::*;
use crate::error::{Error, ErrorCode};
use crate::types::action::Action;

verus! {

/// How an error kind relates to retrying: always worth a retry, never,
/// or only for operations that are safe to repeat.
#[derive(Debug, Copy, Clone, Eq, PartialEq, Structural)]
pub enum RetryCategory {
    Retriable,
    Unretriable,
    Depends,
}

/// The static classification of every error kind.  Ambiguous outcomes —
/// timeouts, corrupted responses, server-side trouble — are `Depends`:
/// they are retried only for operations known to be safely idempotent.
pub open spec fn spec_retry_category(code: ErrorCode) -> RetryCategory {
    match code {
        ErrorCode::ClientUnknown => RetryCategory::Unretriable,
        ErrorCode::NetworkUnknown => RetryCategory::Unretriable,
        ErrorCode::CouldntResolveHost => RetryCategory::Retriable,
        ErrorCode::CouldntConnect => RetryCategory::Retriable,
        ErrorCode::OperationTimeout => RetryCategory::Depends,
        ErrorCode::SslHandshakeFail => RetryCategory::Unretriable,
        ErrorCode::WriteRequestFail => RetryCategory::Depends,
        ErrorCode::CorruptedResponse => RetryCategory::Depends,
        ErrorCode::NoAvailableConnection => RetryCategory::Retriable,
        ErrorCode::OTSUnknown => RetryCategory::Depends,
        ErrorCode::OTSOutOfColumnCountLimit => RetryCategory::Unretriable,
        ErrorCode::OTSObjectNotExist => RetryCategory::Unretriable,
        ErrorCode::OTSServerBusy => RetryCategory::Depends,
        ErrorCode::OTSCapacityUnitExhausted => RetryCategory::Retriable,
        ErrorCode::OTSTooFrequentReservedThroughputAdjustment => RetryCategory::Retriable,
        ErrorCode::OTSInternalServerError => RetryCategory::Depends,
        ErrorCode::OTSQuotaExhausted => RetryCategory::Depends,
        ErrorCode::OTSRequestBodyTooLarge => RetryCategory::Unretriable,
        ErrorCode::OTSTimeout => RetryCategory::Depends,
        ErrorCode::OTSObjectAlreadyExist => RetryCategory::Unretriable,
        ErrorCode::OTSTableNotReady => RetryCategory::Retriable,
        ErrorCode::OTSConditionCheckFail => RetryCategory::Unretriable,
        ErrorCode::OTSOutOfRowSizeLimit => RetryCategory::Unretriable,
        ErrorCode::OTSInvalidPK => RetryCategory::Unretriable,
        ErrorCode::OTSMethodNotAllowed => RetryCategory::Unretriable,
        ErrorCode::OTSAuthFailed => RetryCategory::Unretriable,
        ErrorCode::OTSServerUnavailable => RetryCategory::Depends,
        ErrorCode::OTSParameterInvalid => RetryCategory::Unretriable,
        ErrorCode::OTSRowOperationConflict => RetryCategory::Unretriable,
        ErrorCode::OTSPartitionUnavailable => RetryCategory::Retriable,
        ErrorCode::OTSMissingHeader => RetryCategory::Unretriable,
    }
}

/// Whether an error of the given kind may be retried when the attempted
/// operation was `act`.  Of the `Depends` kinds, only the list-table
/// read is retried; this narrow policy is kept as found rather than
/// generalized, since retrying a write on an ambiguous outcome risks a
/// duplicate effect.
pub open spec fn spec_should_retry(code: ErrorCode, act: Action) -> bool {
    match spec_retry_category(code) {
        RetryCategory::Retriable => true,
        RetryCategory::Unretriable => false,
        RetryCategory::Depends => act == Action::ListTable,
    }
}

impl RetryCategory {
    /// Classifies an error.
    pub fn calc(err: &Error) -> (r: RetryCategory)
        ensures
            r == spec_retry_category(err.code),
    {
        match err.code {
            ErrorCode::ClientUnknown => RetryCategory::Unretriable,
            ErrorCode::NetworkUnknown => RetryCategory::Unretriable,
            ErrorCode::CouldntResolveHost => RetryCategory::Retriable,
            ErrorCode::CouldntConnect => RetryCategory::Retriable,
            ErrorCode::OperationTimeout => RetryCategory::Depends,
            ErrorCode::SslHandshakeFail => RetryCategory::Unretriable,
            ErrorCode::WriteRequestFail => RetryCategory::Depends,
            ErrorCode::CorruptedResponse => RetryCategory::Depends,
            ErrorCode::NoAvailableConnection => RetryCategory::Retriable,
            ErrorCode::OTSUnknown => RetryCategory::Depends,
            ErrorCode::OTSOutOfColumnCountLimit => RetryCategory::Unretriable,
            ErrorCode::OTSObjectNotExist => RetryCategory::Unretriable,
            ErrorCode::OTSServerBusy => RetryCategory::Depends,
            ErrorCode::OTSCapacityUnitExhausted => RetryCategory::Retriable,
            ErrorCode::OTSTooFrequentReservedThroughputAdjustment => RetryCategory::Retriable,
            ErrorCode::OTSInternalServerError => RetryCategory::Depends,
            ErrorCode::OTSQuotaExhausted => RetryCategory::Depends,
            ErrorCode::OTSRequestBodyTooLarge => RetryCategory::Unretriable,
            ErrorCode::OTSTimeout => RetryCategory::Depends,
            ErrorCode::OTSObjectAlreadyExist => RetryCategory::Unretriable,
            ErrorCode::OTSTableNotReady => RetryCategory::Retriable,
            ErrorCode::OTSConditionCheckFail => RetryCategory::Unretriable,
            ErrorCode::OTSOutOfRowSizeLimit => RetryCategory::Unretriable,
            ErrorCode::OTSInvalidPK => RetryCategory::Unretriable,
            ErrorCode::OTSMethodNotAllowed => RetryCategory::Unretriable,
            ErrorCode::OTSAuthFailed => RetryCategory::Unretriable,
            ErrorCode::OTSServerUnavailable => RetryCategory::Depends,
            ErrorCode::OTSParameterInvalid => RetryCategory::Unretriable,
            ErrorCode::OTSRowOperationConflict => RetryCategory::Unretriable,
            ErrorCode::OTSPartitionUnavailable => RetryCategory::Retriable,
            ErrorCode::OTSMissingHeader => RetryCategory::Unretriable,
        }
    }

    /// Whether this category permits retrying the given operation.
    pub fn determine_with_action(&self, act: Action) -> (r: bool)
        ensures
            r == (match *self {
                RetryCategory::Retriable => true,
                RetryCategory::Unretriable => false,
                RetryCategory::Depends => act == Action::ListTable,
            }),
    {
        match self {
            RetryCategory::Retriable => true,
            RetryCategory::Unretriable => false,
            RetryCategory::Depends => match act {
                Action::ListTable => true,
                _ => false,
            },
        }
    }
}

/// The backoff cap: no pause exceeds ten seconds.
pub const MAX_PAUSE_MICROS: u64 = 10_000_000;

/// The initial backoff base: one millisecond.
pub const INITIAL_PAUSE_MICROS: u64 = 1_000;

/// The next backoff base: doubled, capped at ten seconds.
pub open spec fn spec_next_base(base: u64) -> u64 {
    if 2 * base > 10_000_000 {
        10_000_000
    } else {
        (2 * base) as u64
    }
}

/// The deadline-bounded exponential-backoff retry strategy.  A fresh
/// instance starts from a newly computed deadline and the initial
/// backoff base; the configured timeout is preserved across resets.
#[derive(Debug, Clone, Copy, PartialEq, Eq, Structural)]
pub struct DeadlineRetryStrategy {
    pub timeout_micros: u64,
    pub deadline_micros: u64,
    pub retries: usize,
    pub pause_base_micros: u64,
}

/// The strategy's internal invariant: the backoff base stays between
/// its initial value and the cap.
pub open spec fn strategy_valid(s: DeadlineRetryStrategy) -> bool {
    1_000 <= s.pause_base_micros <= 10_000_000
}

impl DeadlineRetryStrategy {
    /// A fresh strategy: its deadline is the current wall clock plus the
    /// given timeout, its backoff state is reset.
    pub fn new(timeout_micros: u64) -> (r: DeadlineRetryStrategy)
        ensures
            r.timeout_micros == timeout_micros,
            r.retries == 0,
            r.pause_base_micros == INITIAL_PAUSE_MICROS,
            strategy_valid(r),
    {
        let now = clamped_now_micros();
        let deadline = if now > u64::MAX - timeout_micros {
            u64::MAX
        } else {
            now + timeout_micros
        };
        DeadlineRetryStrategy {
            timeout_micros,
            deadline_micros: deadline,
            retries: 0,
            pause_base_micros: INITIAL_PAUSE_MICROS,
        }
    }

    /// A reset copy: elapsed time and backoff state start over, the
    /// configured timeout is kept.
    pub fn reset(&self) -> (r: DeadlineRetryStrategy)
        ensures
            r.timeout_micros == self.timeout_micros,
            r.retries == 0,
            r.pause_base_micros == INITIAL_PAUSE_MICROS,
            strategy_valid(r),
    {
        DeadlineRetryStrategy::new(self.timeout_micros)
    }

    /// How many retries this instance has granted.
    pub fn retries(&self) -> (r: usize)
        ensures
            r == self.retries,
    {
        self.retries
    }

    /// The backoff decision at a given instant: grants a pause range
    /// exactly when the error is retriable for the operation and the
    /// instant has not passed the deadline.  The granted range is
    /// `[base/2, base)` for the doubled, ten-second-capped backoff base,
    /// which becomes the new base.
    pub fn next_pause_at(&mut self, act: Action, err: &Error, now_micros: u64) -> (r: Option<
        (u64, u64),
    >)
        requires
            strategy_valid(*old(self)),
        ensures
            strategy_valid(*final(self)),
            r is Some <==> spec_should_retry(err.code, act) && now_micros <= old(
                self,
            ).deadline_micros,
            r matches Some((lo, hi)) ==> hi == spec_next_base(old(self).pause_base_micros) && lo
                == hi / 2 && lo < hi && hi <= MAX_PAUSE_MICROS && final(self).pause_base_micros
                == hi,
            r is None ==> *final(self) == *old(self),
            final(self).timeout_micros == old(self).timeout_micros,
            final(self).deadline_micros == old(self).deadline_micros,
            r is Some && old(self).retries < usize::MAX ==> final(self).retries == old(
                self,
            ).retries + 1,
    {
        let should_retry = RetryCategory::calc(err).determine_with_action(act);
        if !should_retry {
            return None;
        }
        if now_micros > self.deadline_micros {
            return None;
        }
        let doubled = if self.pause_base_micros > 5_000_000 {
            10_000_000
        } else {
            2 * self.pause_base_micros
        };
        self.pause_base_micros = doubled;
        if self.retries < usize::MAX {
            self.retries = self.retries + 1;
        }
        Some((doubled / 2, doubled))
    }

    /// The backoff decision at the current wall clock, with the pause
    /// drawn uniformly from the granted range to avoid synchronized
    /// retries.  An error that is unretriable for the operation never
    /// yields a pause; a granted pause is always under the ten-second
    /// cap.
    pub fn next_pause(&mut self, act: Action, err: &Error) -> (r: Option<u64>)
        requires
            strategy_valid(*old(self)),
        ensures
            strategy_valid(*final(self)),
            !spec_should_retry(err.code, act) ==> r is None,
            r matches Some(d) ==> spec_should_retry(err.code, act) && d < MAX_PAUSE_MICROS,
            final(self).timeout_micros == old(self).timeout_micros,
            final(self).deadline_micros == old(self).deadline_micros,
    {
        let now = clamped_now_micros();
        match self.next_pause_at(act, err, now) {
            None => None,
            Some((lo, hi)) => Some(rand_range(lo, hi)),
        }
    }
}

/// The current wall clock in microseconds since the Unix epoch, at
/// millisecond granularity, clamped to zero for clocks set before it
/// and saturating far beyond any reachable date.
fn clamped_now_micros() -> u64 {
    let t = crate::types::common::utc_now_millis();
    if t < 0 {
        0
    } else if t > 0x7FFF_FFFF_FFFF {
        u64::MAX
    } else {
        (t as u64) * 1000
    }
}

/// Relies on `rand::Rng::gen_range` over a half-open range: the result
/// is uniformly drawn from `[lo, hi)`.
#[verifier::external_body]
fn rand_range(lo: u64, hi: u64) -> (r: u64)
    requires
        lo < hi,
    ensures
        lo <= r < hi,
{
    rand::Rng::gen_range(&mut rand::thread_rng(), lo..hi)
}

} // verus!
