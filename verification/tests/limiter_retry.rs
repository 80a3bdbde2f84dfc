use tablestore::{Concurrency, DeadlineRetryStrategy, Error, ErrorCode, Action, RetryCategory};

#[test]
fn limiter_admits_capacity_then_rejects() {
    let n = 3i64;
    let mut limiter = Concurrency::new(n);
    for _ in 0..n {
        assert!(limiter.acquire().is_ok());
    }
    let rejected = limiter.acquire();
    assert!(rejected.is_err());
    assert!(matches!(rejected.unwrap_err().code, ErrorCode::NoAvailableConnection));
    limiter.release();
    assert!(limiter.acquire().is_ok());
    assert!(limiter.acquire().is_err());
}

#[test]
fn limiter_zero_capacity_rejects_immediately() {
    let mut limiter = Concurrency::new(0);
    assert!(limiter.acquire().is_err());
}

fn depends_error() -> Error {
    Error { code: ErrorCode::CorruptedResponse, message: String::new() }
}

fn unretriable_error() -> Error {
    Error { code: ErrorCode::OTSAuthFailed, message: String::new() }
}

#[test]
fn retry_depends_is_eligible_only_for_list_table() {
    let cat = RetryCategory::calc(&depends_error());
    assert_eq!(cat, RetryCategory::Depends);
    assert!(cat.determine_with_action(Action::ListTable));
    assert!(!cat.determine_with_action(Action::PutRow));
    assert!(!cat.determine_with_action(Action::GetRange));
    assert!(!cat.determine_with_action(Action::CreateTable));
    assert!(!cat.determine_with_action(Action::DeleteTable));
}

#[test]
fn retry_grants_pause_under_cap_before_deadline() {
    let mut s = DeadlineRetryStrategy::new(300_000_000);
    let deadline = s.deadline_micros;
    let granted = s.next_pause_at(Action::ListTable, &depends_error(), deadline - 1);
    let (lo, hi) = granted.unwrap();
    assert_eq!(hi, 2_000);
    assert_eq!(lo, 1_000);
    assert!(hi <= 10_000_000);
    // Doubling caps at ten seconds.
    let mut last_hi = hi;
    for _ in 0..20 {
        let (l, h) = s
            .next_pause_at(Action::ListTable, &depends_error(), deadline - 1)
            .unwrap();
        assert!(h <= 10_000_000);
        assert!(h >= last_hi);
        assert_eq!(l, h / 2);
        last_hi = h;
    }
    assert_eq!(last_hi, 10_000_000);
}

#[test]
fn retry_refuses_past_deadline() {
    let mut s = DeadlineRetryStrategy::new(300_000_000);
    let deadline = s.deadline_micros;
    assert!(s.next_pause_at(Action::ListTable, &depends_error(), deadline + 1).is_none());
}

#[test]
fn retry_refuses_unretriable_always() {
    let mut s = DeadlineRetryStrategy::new(300_000_000);
    let deadline = s.deadline_micros;
    assert!(s.next_pause_at(Action::ListTable, &unretriable_error(), deadline - 1).is_none());
    assert!(s.next_pause(Action::ListTable, &unretriable_error()).is_none());
    assert!(s.next_pause(Action::PutRow, &depends_error()).is_none());
}

#[test]
fn retry_pause_is_under_cap() {
    let mut s = DeadlineRetryStrategy::new(300_000_000);
    for _ in 0..25 {
        match s.next_pause(Action::ListTable, &depends_error()) {
            Some(d) => assert!(d < 10_000_000),
            None => {},
        }
    }
}
