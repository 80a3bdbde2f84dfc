//! The concurrency limiter: a hard admission cap with immediate
//! rejection.  Acquisition never blocks or queues; exhaustion is an
//! error pushed back to the caller.

use vstd::prelude::*;
use crate::error::{Error, ErrorCode};
use vstd::string::StringExecFns;

verus! {

/// The admission counter: a configured capacity and the permits still
/// available.
#[derive(Debug, Clone, Copy, PartialEq, Eq, Structural)]
pub struct Concurrency {
    pub capacity: i64,
    pub available: i64,
}

/// The admission decision on a given number of available permits: the
/// permits afterwards, and whether admission was granted.
pub open spec fn spec_acquire(available: i64) -> (i64, bool) {
    if available > 0 {
        ((available - 1) as i64, true)
    } else {
        (available, false)
    }
}

/// The available permits after `k` acquisition attempts starting from
/// `start`.
pub open spec fn spec_avail_after(start: i64, k: nat) -> i64
    decreases k,
{
    if k == 0 {
        start
    } else {
        spec_acquire(spec_avail_after(start, (k - 1) as nat)).0
    }
}

impl Concurrency {
    /// A fresh limiter with the given capacity, all permits available.
    pub fn new(slots: i64) -> (r: Concurrency)
        ensures
            r.capacity == slots,
            r.available == slots,
    {
        Concurrency { capacity: slots, available: slots }
    }

    /// Tries to take one permit: succeeds exactly while a permit is
    /// available, and fails immediately — never blocking — with the
    /// admission-rejected kind otherwise.
    pub fn acquire(&mut self) -> (r: Result<(), Error>)
        ensures
            r is Ok <==> old(self).available > 0,
            final(self).available == spec_acquire(old(self).available).0,
            r is Ok <==> spec_acquire(old(self).available).1,
            final(self).capacity == old(self).capacity,
            r matches Err(e) ==> e.code == ErrorCode::NoAvailableConnection,
    {
        if self.available > 0 {
            self.available = self.available - 1;
            Ok(())
        } else {
            Err(
                Error {
                    code: ErrorCode::NoAvailableConnection,
                    message: String::from_str("too many concurrent requests."),
                },
            )
        }
    }

    /// Returns one permit; called on every exit path of the holding
    /// scope, success or failure.
    pub fn release(&mut self)
        requires
            old(self).available < old(self).capacity,
        ensures
            final(self).available == old(self).available + 1,
            final(self).capacity == old(self).capacity,
    {
        self.available = self.available + 1;
    }
}

/// The admission law: starting from `n` available permits, the first
/// `n` acquisitions are granted, the next is rejected, and after one
/// release exactly one more acquisition is granted.
pub proof fn lemma_limiter_admission(n: i64, k: nat)
    requires
        n >= 0,
        k <= n,
    ensures
        spec_avail_after(n, k) == n - k,
        k < n ==> spec_acquire(spec_avail_after(n, k)).1,
        spec_avail_after(n, n as nat) == 0,
        !spec_acquire(0).1,
        spec_acquire(1).1 && spec_acquire(1).0 == 0,
    decreases k,
{
    if k > 0 {
        lemma_limiter_admission(n, (k - 1) as nat);
    } else {
        lemma_avail_after_full(n);
    }
}

/// Starting from `n` permits, `n` acquisition attempts drain exactly to
/// zero.
proof fn lemma_avail_after_full(n: i64)
    requires
        n >= 0,
    ensures
        spec_avail_after(n, n as nat) == 0,
    decreases n,
{
    if n > 0 {
        lemma_avail_after_shift(n, (n - 1) as nat);
        lemma_avail_after_full((n - 1) as i64);
    }
}

/// One granted acquisition commutes with the remaining attempts.
proof fn lemma_avail_after_shift(n: i64, k: nat)
    requires
        n > 0,
    ensures
        spec_avail_after(n, (k + 1) as nat) == spec_avail_after((n - 1) as i64, k),
    decreases k,
{
    if k == 0 {
        assert(spec_avail_after(n, 0) == n);
        assert(spec_avail_after((n - 1) as i64, 0) == n - 1);
        assert(spec_avail_after(n, 1nat) == spec_acquire(spec_avail_after(n, 0)).0);
    } else {
        lemma_avail_after_shift(n, (k - 1) as nat);
        assert(spec_avail_after(n, (k + 1) as nat) == spec_acquire(spec_avail_after(n, k)).0);
        assert(spec_avail_after((n - 1) as i64, k) == spec_acquire(
            spec_avail_after((n - 1) as i64, (k - 1) as nat),
        ).0);
    }
}

} // verus!
