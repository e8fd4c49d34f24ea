use std::time::Duration;

use lib::outbox::{wait_duration, Advance, Coordinator, Head, Step, Work, BUSY_RETRY_MILLIS};

#[test]
fn deferred_head_wait_uses_the_persisted_deadline() {
    assert_eq!(wait_duration(40, 43), Duration::from_secs(3));
    assert_eq!(wait_duration(43, 43), Duration::ZERO);
    assert_eq!(wait_duration(44, 43), Duration::ZERO);
}

#[test]
fn wait_is_the_whole_difference_in_seconds() {
    assert_eq!(wait_duration(0, 90), Duration::from_secs(90));
    assert_eq!(wait_duration(-5, 5), Duration::from_secs(10));
}

#[test]
fn wait_saturates_at_the_largest_difference() {
    assert_eq!(wait_duration(i64::MIN, i64::MAX), Duration::from_secs(i64::MAX as u64));
    assert_eq!(wait_duration(i64::MAX, i64::MIN), Duration::ZERO);
}

fn claim(expired: Vec<&'static str>, head: Head<u32, &'static str, &'static str>) -> Result<Advance<u32, &'static str, &'static str>, &'static str> {
    Ok(Advance::Claim { expired, head })
}

#[test]
fn coordinator_claims_on_its_first_poll_and_then_parks() {
    let mut c: Coordinator<&str, &str> = Coordinator::new();
    assert!(matches!(c.poll(), Step::NeedClock));
    let (work, step) = c.clock_read::<u32>(Ok(100));
    assert!(matches!(work, Some(Work::Claim { now: 100 })));
    assert!(matches!(step, Step::Await));
    assert!(matches!(c.poll(), Step::Await));
    let (work, step) = c.advanced(claim(Vec::new(), Head::Idle));
    assert!(work.is_none());
    assert!(matches!(step, Step::Park));
    assert!(matches!(c.poll(), Step::Park));
    c.wake();
    assert!(matches!(c.poll(), Step::NeedClock));
}

#[test]
fn claimed_head_is_reported_after_expired_records_and_executed() {
    let mut c: Coordinator<&str, &str> = Coordinator::new();
    c.poll();
    c.clock_read::<u32>(Ok(5));
    let (work, step) = c.advanced(claim(
        vec!["expired-1", "expired-2"],
        Head::Claimed { record: 7, changed: "claimed-7", started_at: Ok(6) },
    ));
    assert!(matches!(work, Some(Work::Execute { record: 7, now: 6 })));
    assert!(matches!(step, Step::Ready("expired-1")));
    assert!(matches!(c.poll(), Step::Ready("expired-2")));
    assert!(matches!(c.poll(), Step::Ready("claimed-7")));
    assert!(matches!(c.poll(), Step::Await));
}

#[test]
fn deferred_head_waits_until_its_deadline() {
    let mut c: Coordinator<&str, &str> = Coordinator::new();
    c.poll();
    c.clock_read::<u32>(Ok(40));
    let (work, step) = c.advanced(claim(Vec::new(), Head::WaitingUntil { available_at: 44, now: Ok(43) }));
    match work {
        Some(Work::Wait(d)) => assert_eq!(d, Duration::from_secs(1)),
        _ => panic!("expected a wait"),
    }
    assert!(matches!(step, Step::Await));
    let (work, step) = c.advanced::<u32>(Ok(Advance::Continue));
    assert!(work.is_none());
    assert!(matches!(step, Step::NeedClock));
}

#[test]
fn busy_head_is_retried() {
    let mut c: Coordinator<&str, &str> = Coordinator::new();
    c.poll();
    c.clock_read::<u32>(Ok(1));
    let (work, step) = c.advanced(claim(Vec::new(), Head::Busy));
    assert!(matches!(work, Some(Work::RetryBusy)));
    assert!(matches!(step, Step::Await));
    assert_eq!(BUSY_RETRY_MILLIS, 50);
}

#[test]
fn outcome_reports_go_out_before_its_reconnect_error() {
    let mut c: Coordinator<&str, &str> = Coordinator::new();
    c.poll();
    c.clock_read::<u32>(Ok(1));
    c.advanced(claim(Vec::new(), Head::Claimed { record: 1, changed: "claimed", started_at: Ok(1) }));
    assert!(matches!(c.poll(), Step::Await));
    let (work, step) = c.advanced::<u32>(Ok(Advance::Outcome { outputs: vec!["sent", "read"], reconnect: Some("offline") }));
    assert!(work.is_none());
    assert!(matches!(step, Step::Ready("sent")));
    assert!(matches!(c.poll(), Step::Ready("read")));
    assert!(matches!(c.poll(), Step::Failed("offline")));
    assert!(matches!(c.poll(), Step::NeedClock));
}

#[test]
fn clock_failure_is_reported_and_nothing_starts() {
    let mut c: Coordinator<&str, &str> = Coordinator::new();
    c.poll();
    let (work, step) = c.clock_read::<u32>(Err("no clock"));
    assert!(work.is_none());
    assert!(matches!(step, Step::Failed("no clock")));
    assert!(matches!(c.poll(), Step::Park));
}

#[test]
fn claimed_head_without_a_start_time_fails_after_queuing_expired_records() {
    let mut c: Coordinator<&str, &str> = Coordinator::new();
    c.poll();
    c.clock_read::<u32>(Ok(1));
    let (work, step) = c.advanced(claim(
        vec!["expired"],
        Head::Claimed { record: 3, changed: "claimed-3", started_at: Err("replay failed") },
    ));
    assert!(work.is_none());
    assert!(matches!(step, Step::Failed("replay failed")));
    assert!(matches!(c.poll(), Step::Ready("expired")));
    assert!(matches!(c.poll(), Step::Park));
}
