use squid_downloader::retry::{
    after_attempt, backoff_for, outcome_of_status, queue_backoff_secs, requeue_delay, should_retry,
    segment_step, queue_step, AttemptOutcome, QueueStep, MatchPacing, RetryStep, SegmentStep, MAX_RETRIES,
};

#[test]
fn backoff_schedule() {
    let waits: Vec<u64> = (0..MAX_RETRIES).map(backoff_for).collect();
    assert_eq!(waits, vec![5, 15, 30, 60, 120]);
}

#[test]
fn queue_backoff_caps_at_two_minutes() {
    assert_eq!(queue_backoff_secs(0), 5);
    assert_eq!(queue_backoff_secs(3), 60);
    assert_eq!(queue_backoff_secs(4), 120);
    assert_eq!(queue_backoff_secs(100), 120);
}

#[test]
fn steps_after_attempts() {
    assert_eq!(after_attempt(0, AttemptOutcome::Succeeded), RetryStep::Done);
    assert_eq!(after_attempt(0, AttemptOutcome::FailedFatal), RetryStep::GiveUp);
    assert_eq!(after_attempt(0, AttemptOutcome::FailedRetryable), RetryStep::RetryAfter(5));
    assert_eq!(after_attempt(3, AttemptOutcome::FailedRetryable), RetryStep::RetryAfter(60));
    assert_eq!(after_attempt(4, AttemptOutcome::FailedRetryable), RetryStep::GiveUp);
}

#[test]
fn persistent_failure_waits_one_hundred_ten_seconds_in_five_attempts() {
    let mut waited = 0u64;
    let mut attempts = 0usize;
    for attempt in 0..MAX_RETRIES {
        attempts += 1;
        match after_attempt(attempt, AttemptOutcome::FailedRetryable) {
            RetryStep::RetryAfter(s) => waited += s,
            _ => break,
        }
    }
    assert_eq!(attempts, 5);
    assert_eq!(waited, 110);
}

#[test]
fn status_codes() {
    assert!(should_retry(429));
    assert!(should_retry(503));
    assert!(!should_retry(404));
    assert!(!should_retry(200));
    assert_eq!(outcome_of_status(200), AttemptOutcome::Succeeded);
}

#[test]
fn requeue_only_retryable_failures_within_the_limit() {
    assert_eq!(requeue_delay(true, 0, 5), Some(5));
    assert_eq!(requeue_delay(true, 3, 5), Some(60));
    assert_eq!(requeue_delay(true, 4, 5), None);
    assert_eq!(requeue_delay(false, 0, 5), None);
}

#[test]
fn match_pacing_slows_down_after_three_misses() {
    let mut p = MatchPacing::new();
    assert_eq!(p.on_miss(), 1000);
    assert_eq!(p.on_miss(), 1000);
    assert_eq!(p.on_miss(), 15000);
    assert_eq!(p.on_miss(), 15000);
    p.on_match();
    assert_eq!(p.consecutive_failures, 0);
    assert_eq!(p.on_miss(), 1000);
}

#[test]
fn segment_steps() {
    assert_eq!(segment_step(0, AttemptOutcome::Succeeded, false), SegmentStep::Next);
    assert_eq!(segment_step(1, AttemptOutcome::Succeeded, true), SegmentStep::Fail);
    assert_eq!(segment_step(0, AttemptOutcome::FailedRetryable, false), SegmentStep::RetryAfter(5));
    assert_eq!(segment_step(2, AttemptOutcome::FailedRetryable, true), SegmentStep::RetryAfter(30));
    assert_eq!(segment_step(4, AttemptOutcome::FailedRetryable, true), SegmentStep::Fail);
    assert_eq!(segment_step(0, AttemptOutcome::FailedFatal, false), SegmentStep::Fail);
}

#[test]
fn worker_queue_steps() {
    assert_eq!(queue_step(true, 0), QueueStep::Run);
    assert_eq!(queue_step(true, 3), QueueStep::Run);
    assert_eq!(queue_step(false, 2), QueueStep::Wait);
    assert_eq!(queue_step(false, 0), QueueStep::Finish);
}
