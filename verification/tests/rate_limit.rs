use smol_dfr::rate_limit::{LogOnce, RateLimitedValue};
use std::time::Duration;

#[test]
fn first_refresh_always_reads() {
    let mut v = RateLimitedValue::new(0u32, Duration::from_secs(3600));
    assert_eq!(*v.get(), 0);
    assert!(v.refresh_if_needed(|| 5));
    assert_eq!(*v.get(), 5);
    // Within the interval nothing is read.
    assert!(!v.refresh_if_needed(|| 6));
    assert_eq!(*v.get(), 5);
}

#[test]
fn zero_interval_refreshes_every_time() {
    let mut v = RateLimitedValue::new(String::new(), Duration::from_secs(0));
    assert!(v.refresh_if_needed(|| "a".to_string()));
    assert!(v.refresh_if_needed(|| "b".to_string()));
    assert_eq!(v.get(), "b");
}

#[test]
fn log_once_reports_transitions_only() {
    let mut l = LogOnce::new("down", "up");
    assert_eq!(l.check(true), None);
    assert_eq!(l.check(false), Some("down"));
    assert_eq!(l.check(false), None);
    assert_eq!(l.check(true), Some("up"));
    assert_eq!(l.check(true), None);
}

#[test]
fn refresh_decision_follows_staleness() {
    let mut v = RateLimitedValue::new(0u32, Duration::from_secs(3600));
    // Never read: refreshed whatever the staleness says.
    assert!(v.refresh_if_stale(false, || 1, std::time::Instant::now));
    assert_eq!(*v.get(), 1);
    // Read and not stale: nothing is read.
    assert!(!v.refresh_if_stale(false, || 2, std::time::Instant::now));
    assert_eq!(*v.get(), 1);
    // Stale: read again.
    assert!(v.refresh_if_stale(true, || 3, std::time::Instant::now));
    assert_eq!(*v.get(), 3);
}

#[test]
fn refresh_decision_follows_elapsed_time() {
    let mut v = RateLimitedValue::new(0u32, Duration::from_secs(10));
    // Never read: refreshed whatever the elapsed time.
    assert!(v.refresh_after(None, || 1, std::time::Instant::now));
    assert_eq!(*v.get(), 1);
    assert!(!v.refresh_after(Some(Duration::from_secs(9)), || 2, std::time::Instant::now));
    assert_eq!(*v.get(), 1);
    assert!(v.refresh_after(Some(Duration::from_secs(10)), || 3, std::time::Instant::now));
    assert_eq!(*v.get(), 3);
    // Read, but no elapsed time given: nothing is read.
    assert!(!v.refresh_after(None, || 4, std::time::Instant::now));
    assert_eq!(*v.get(), 3);
}
