use picoredsp::core_logic::recovery::{RejectionReason, RetryState};
use std::time::Duration;

#[test]
fn retry_state_new_allows_immediate_attempt() {
    let r = RetryState::new();
    assert!(r.should_attempt());
}

#[test]
fn retry_state_record_attempt_sets_backoff() {
    let mut r = RetryState::new();
    r.record_attempt();
    // Immediately after recording, backoff window is active.
    assert!(!r.should_attempt());
}

#[test]
fn retry_state_backoff_sequence_grows() {
    let mut r = RetryState::new();
    // Record 6 attempts and observe the consecutive counter.
    for i in 1..=6 {
        r.record_attempt();
        assert_eq!(r.consecutive, i);
    }
}

#[test]
fn retry_state_reports_scheduled_delay_sequence() {
    let mut r = RetryState::new();
    let expected_ms = [500, 1000, 2000, 5000, 10_000, 30_000, 30_000];
    for expected in expected_ms {
        r.record_attempt();
        assert_eq!(
            r.scheduled_delay(),
            Some(Duration::from_millis(expected)),
            "unexpected scheduled delay after {} attempts",
            r.consecutive
        );
    }
}

#[test]
fn retry_state_latch_prevents_attempt() {
    let mut r = RetryState::new();
    r.latch();
    assert!(!r.should_attempt());
}

#[test]
fn retry_state_reset_backoff_keeps_permanent_latch() {
    let mut r = RetryState::new();
    r.latch();
    r.record_attempt();
    r.reset_backoff();
    assert!(!r.should_attempt());
    assert_eq!(r.consecutive, 0);
    assert!(r.latch_until_change);
}

#[test]
fn retry_state_clear_latch_requires_separate_call() {
    let mut r = RetryState::new();
    r.latch();
    r.record_attempt();
    r.reset_backoff();
    r.clear_latch();
    assert!(r.should_attempt());
    assert_eq!(r.consecutive, 0);
    assert!(!r.latch_until_change);
}

#[test]
fn retry_state_tracks_last_rejection_reason() {
    let mut r = RetryState::new();
    r.record_attempt_with_reason(RejectionReason::PlaybackDevice);
    assert_eq!(r.rejection_reason(), RejectionReason::PlaybackDevice);
    // Not latched, so `reset_backoff()` also forgets the transient
    // rejection reason; `rejection_reason()` falls back to its
    // `Internal` default rather than reporting `PlaybackDevice` again.
    r.reset_backoff();
    assert_eq!(r.rejection_reason(), RejectionReason::Internal);
    r.latch_with_reason(RejectionReason::Config);
    assert_eq!(r.rejection_reason(), RejectionReason::Config);
    // Once latched, `reset_backoff()` must NOT forget the reason behind
    // the still-active permanent latch (only `clear_latch()` may do so).
    r.reset_backoff();
    assert_eq!(r.rejection_reason(), RejectionReason::Config);
}

#[test]
fn retry_state_default_allows_immediate_attempt() {
    let r = RetryState::default();
    assert!(r.should_attempt());
}
