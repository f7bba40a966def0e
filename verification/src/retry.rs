use vstd::prelude::*;

verus! {

/// The most attempts made at one request.
pub const MAX_RETRIES: usize = 5;

/// The seconds to wait after the failed attempt number `attempt` (counted
/// from zero) before trying again: 5, 15, 30, 60, then 120.
pub open spec fn backoff_secs(attempt: int) -> u64 {
    if attempt <= 0 {
        5
    } else if attempt == 1 {
        15
    } else if attempt == 2 {
        30
    } else if attempt == 3 {
        60
    } else {
        120
    }
}

/// The wait after failed attempt `attempt`, for `attempt < MAX_RETRIES`.
pub fn backoff_for(attempt: usize) -> (r: u64)
    requires
        attempt < MAX_RETRIES,
    ensures
        r == backoff_secs(attempt as int),
{
    if attempt == 0 {
        5
    } else if attempt == 1 {
        15
    } else if attempt == 2 {
        30
    } else if attempt == 3 {
        60
    } else {
        120
    }
}

/// How one attempt at a request went.
#[derive(Debug, Clone, Copy, PartialEq, Eq, Structural)]
pub enum AttemptOutcome {
    Succeeded,
    FailedRetryable,
    FailedFatal,
}

/// What to do after an attempt.
#[derive(Debug, Clone, Copy, PartialEq, Eq, Structural)]
pub enum RetryStep {
    /// The request succeeded.
    Done,
    /// Stop and report the failure of this attempt.
    GiveUp,
    /// Wait this many seconds, then try again.
    RetryAfter(u64),
}

/// The step after attempt number `attempt`: a success ends the request, a
/// failure that cannot go away ends it too, and a failure that may go away is
/// retried after the back-off delay unless it was the last allowed attempt.
pub open spec fn step_after(attempt: int, outcome: AttemptOutcome) -> RetryStep {
    match outcome {
        AttemptOutcome::Succeeded => RetryStep::Done,
        AttemptOutcome::FailedFatal => RetryStep::GiveUp,
        AttemptOutcome::FailedRetryable => if attempt >= MAX_RETRIES - 1 {
            RetryStep::GiveUp
        } else {
            RetryStep::RetryAfter(backoff_secs(attempt))
        },
    }
}

/// Decides what follows attempt number `attempt`.
pub fn after_attempt(attempt: usize, outcome: AttemptOutcome) -> (r: RetryStep)
    requires
        attempt < MAX_RETRIES,
    ensures
        r == step_after(attempt as int, outcome),
{
    match outcome {
        AttemptOutcome::Succeeded => RetryStep::Done,
        AttemptOutcome::FailedFatal => RetryStep::GiveUp,
        AttemptOutcome::FailedRetryable => {
            if attempt >= MAX_RETRIES - 1 {
                RetryStep::GiveUp
            } else {
                RetryStep::RetryAfter(backoff_for(attempt))
            }
        },
    }
}

/// What follows an attempt at one segment of a segmented download.
#[derive(Debug, Clone, Copy, PartialEq, Eq, Structural)]
pub enum SegmentStep {
    /// The segment is in; go on with the next one.
    Next,
    /// Wait this many seconds, then try the segment again.
    RetryAfter(u64),
    /// Stop: the download fails.
    Fail,
}

/// The step after attempt `attempt` at a segment, given whether an earlier
/// attempt at it failed. A failure is retried as `step_after` says, and
/// fails the download otherwise. A success lets the download go on only when
/// no earlier attempt at the segment failed: the error of the failed attempt
/// is kept and ends the download once the segment is written.
pub open spec fn segment_step_after(attempt: int, outcome: AttemptOutcome, failed_before: bool) -> SegmentStep {
    match outcome {
        AttemptOutcome::Succeeded => if failed_before {
            SegmentStep::Fail
        } else {
            SegmentStep::Next
        },
        _ => match step_after(attempt, outcome) {
            RetryStep::RetryAfter(s) => SegmentStep::RetryAfter(s),
            _ => SegmentStep::Fail,
        },
    }
}

/// Decides what follows an attempt at a segment.
pub fn segment_step(attempt: usize, outcome: AttemptOutcome, failed_before: bool) -> (r: SegmentStep)
    requires
        attempt < MAX_RETRIES,
    ensures
        r == segment_step_after(attempt as int, outcome, failed_before),
{
    match outcome {
        AttemptOutcome::Succeeded => if failed_before {
            SegmentStep::Fail
        } else {
            SegmentStep::Next
        },
        _ => match after_attempt(attempt, outcome) {
            RetryStep::RetryAfter(s) => SegmentStep::RetryAfter(s),
            _ => SegmentStep::Fail,
        },
    }
}

/// A segment is only ever accepted on its first attempt: once an attempt at
/// it has failed, no later outcome lets the download go on.
pub proof fn law_segment_accepted_only_first_time(attempt: int, outcome: AttemptOutcome)
    ensures
        segment_step_after(attempt, outcome, true) != SegmentStep::Next,
        segment_step_after(0, AttemptOutcome::Succeeded, false) == SegmentStep::Next,
{
}

/// HTTP statuses worth asking again for: 429 (too many requests) and the
/// server errors 500 to 599.
pub open spec fn status_retryable(code: u16) -> bool {
    code == 429 || (500 <= code && code <= 599)
}

/// Whether a request that got HTTP status `code` may be retried.
pub fn should_retry(code: u16) -> (r: bool)
    ensures
        r == status_retryable(code),
{
    code == 429 || (500 <= code && code <= 599)
}

/// The statuses retried are exactly 429 (too many requests) and the server
/// errors 500 to 599; every other status fails the request at once.
pub proof fn law_retried_statuses(code: u16)
    ensures
        500 <= code <= 599 ==> status_retryable(code),
        code == 429 ==> status_retryable(code),
        (code < 500 || code > 599) && code != 429 ==> !status_retryable(code),
{
}

/// How an attempt goes by its status: 200 to 299 succeed; 429 and 500 to
/// 599 fail in a way worth retrying; everything else fails for good.
pub proof fn law_status_outcomes(code: u16)
    ensures
        200 <= code <= 299 ==> status_outcome(code) == AttemptOutcome::Succeeded,
        code == 429 || (500 <= code <= 599) ==> status_outcome(code) == AttemptOutcome::FailedRetryable,
        !(200 <= code <= 299) && code != 429 && !(500 <= code <= 599) ==> status_outcome(code)
            == AttemptOutcome::FailedFatal,
{
}

/// How an attempt that got HTTP status `code` went: 200 to 299 is a success.
pub open spec fn status_outcome(code: u16) -> AttemptOutcome {
    if 200 <= code && code <= 299 {
        AttemptOutcome::Succeeded
    } else if status_retryable(code) {
        AttemptOutcome::FailedRetryable
    } else {
        AttemptOutcome::FailedFatal
    }
}

/// Classifies an HTTP status.
pub fn outcome_of_status(code: u16) -> (r: AttemptOutcome)
    ensures
        r == status_outcome(code),
{
    if 200 <= code && code <= 299 {
        AttemptOutcome::Succeeded
    } else if should_retry(code) {
        AttemptOutcome::FailedRetryable
    } else {
        AttemptOutcome::FailedFatal
    }
}

/// The attempts made and the seconds waited by a run of a request that starts
/// at attempt `attempt`, when attempt `i` goes as `outcomes[i]` (a run that
/// needs more outcomes than given stops short).
pub open spec fn retry_run(outcomes: Seq<AttemptOutcome>, attempt: nat) -> (nat, nat)
    decreases outcomes.len() - attempt,
{
    if attempt >= outcomes.len() {
        (0, 0)
    } else {
        match step_after(attempt as int, outcomes[attempt as int]) {
            RetryStep::RetryAfter(s) => {
                let rest = retry_run(outcomes, attempt + 1);
                (rest.0 + 1, rest.1 + s as nat)
            },
            _ => (1, 0),
        }
    }
}

/// The seconds waited between attempts `attempt` and the last one.
pub open spec fn waits_from(attempt: nat) -> nat
    decreases MAX_RETRIES - attempt,
{
    if attempt + 1 >= MAX_RETRIES {
        0
    } else {
        backoff_secs(attempt as int) as nat + waits_from(attempt + 1)
    }
}

proof fn lemma_retry_run_bounded(outcomes: Seq<AttemptOutcome>, attempt: nat)
    requires
        attempt < MAX_RETRIES,
    ensures
        retry_run(outcomes, attempt).0 <= MAX_RETRIES - attempt,
        retry_run(outcomes, attempt).1 <= waits_from(attempt),
    decreases outcomes.len() - attempt,
{
    if attempt < outcomes.len() {
        if let RetryStep::RetryAfter(_) = step_after(attempt as int, outcomes[attempt as int]) {
            lemma_retry_run_bounded(outcomes, attempt + 1);
        }
    }
}

/// However the attempts go, a request is tried at most `MAX_RETRIES` times
/// and the waits between attempts add up to at most 110 seconds.
pub proof fn law_retry_run_bounded(outcomes: Seq<AttemptOutcome>)
    ensures
        retry_run(outcomes, 0).0 <= MAX_RETRIES,
        retry_run(outcomes, 0).1 <= 110,
{
    lemma_retry_run_bounded(outcomes, 0);
    assert(waits_from(4) == 0);
    assert(waits_from(3) == 60);
    assert(waits_from(2) == 90);
    assert(waits_from(1) == 105);
    assert(waits_from(0) == 110);
}

/// A request whose attempts all fail in a way that may go away is tried
/// exactly `MAX_RETRIES` times, waiting 110 seconds in all.
pub proof fn law_persistent_failure_uses_every_attempt(outcomes: Seq<AttemptOutcome>)
    requires
        outcomes.len() >= MAX_RETRIES,
        forall|i: int| 0 <= i < outcomes.len() ==> outcomes[i] == AttemptOutcome::FailedRetryable,
    ensures
        retry_run(outcomes, 0) == (5nat, 110nat),
{
    assert(retry_run(outcomes, 4) == (1nat, 0nat));
    assert(retry_run(outcomes, 3) == (2nat, 60nat));
    assert(retry_run(outcomes, 2) == (3nat, 90nat));
    assert(retry_run(outcomes, 1) == (4nat, 105nat));
}

// ---------------------------------------------------------------------------
// Pacing of the track matching
// ---------------------------------------------------------------------------

/// Misses in a row after which matching slows down as if rate limited.
pub const CONSECUTIVE_FAILURE_THRESHOLD: usize = 3;

/// Milliseconds to pause after a track that was not found.
pub const NOT_FOUND_DELAY_MS: u64 = 1000;

/// Milliseconds to pause once matching looks rate limited.
pub const RATE_LIMIT_DELAY_MS: u64 = 15000;

/// The run of tracks not found since the last track found.
pub struct MatchPacing {
    pub consecutive_failures: usize,
}

impl MatchPacing {
    pub fn new() -> (r: Self)
        ensures
            r.consecutive_failures == 0,
    {
        MatchPacing { consecutive_failures: 0 }
    }

    /// A track was found: the run of misses ends.
    pub fn on_match(&mut self)
        ensures
            final(self).consecutive_failures == 0,
    {
        self.consecutive_failures = 0;
    }

    /// A track was not found: the run grows by one, and the pause before the
    /// next search is returned, long once the run reaches the threshold.
    pub fn on_miss(&mut self) -> (delay_ms: u64)
        requires
            old(self).consecutive_failures < usize::MAX,
        ensures
            final(self).consecutive_failures == old(self).consecutive_failures + 1,
            delay_ms == (if final(self).consecutive_failures >= CONSECUTIVE_FAILURE_THRESHOLD {
                RATE_LIMIT_DELAY_MS
            } else {
                NOT_FOUND_DELAY_MS
            }),
    {
        self.consecutive_failures = self.consecutive_failures + 1;
        if self.consecutive_failures >= CONSECUTIVE_FAILURE_THRESHOLD {
            RATE_LIMIT_DELAY_MS
        } else {
            NOT_FOUND_DELAY_MS
        }
    }
}

// ---------------------------------------------------------------------------
// The queue of downloads
// ---------------------------------------------------------------------------

/// What a download worker does next.
#[derive(Debug, Clone, Copy, PartialEq, Eq, Structural)]
pub enum QueueStep {
    /// Take the job it found at the head of the queue.
    Run,
    /// Wait a moment and look again: downloads still running may requeue.
    Wait,
    /// Stop: the queue is empty and no download is running.
    Finish,
}

/// Decides what a worker does, given whether it found a job on the queue and
/// how many downloads are running.
pub fn queue_step(found_job: bool, in_flight: usize) -> (r: QueueStep)
    ensures
        r == (if found_job {
            QueueStep::Run
        } else if in_flight == 0 {
            QueueStep::Finish
        } else {
            QueueStep::Wait
        }),
{
    if found_job {
        QueueStep::Run
    } else if in_flight == 0 {
        QueueStep::Finish
    } else {
        QueueStep::Wait
    }
}

/// The seconds a queued download waits before its next try, after failing
/// `retry_count` times: 5, 15, 30, 60, then 120 for every later try.
pub fn queue_backoff_secs(retry_count: usize) -> (r: u64)
    ensures
        r == backoff_secs(retry_count as int),
{
    let k = if retry_count < 4 {
        retry_count
    } else {
        4
    };
    backoff_for(k)
}

/// Whether a queued download that failed goes back on the queue: only a
/// failure that may go away, and only while fewer than `max_retries` tries
/// would have been made.
pub open spec fn requeued(retryable: bool, retry_count: usize, max_retries: usize) -> bool {
    retryable && retry_count + 1 < max_retries
}

/// Decides whether a failed queued download is tried again, and after how
/// many seconds.
pub fn requeue_delay(retryable: bool, retry_count: usize, max_retries: usize) -> (r: Option<u64>)
    ensures
        r == (if requeued(retryable, retry_count, max_retries) {
            Some(backoff_secs(retry_count as int))
        } else {
            None::<u64>
        }),
{
    if retryable && retry_count < max_retries && retry_count + 1 < max_retries {
        Some(queue_backoff_secs(retry_count))
    } else {
        None
    }
}

/// A queued download is tried at most `max_retries` times: it goes back on
/// the queue only while the tries made, this one included, stay below the
/// limit, and never waits more than two minutes before the next try.
pub proof fn law_requeue_stays_within_limit(retryable: bool, retry_count: usize, max_retries: usize)
    ensures
        requeued(retryable, retry_count, max_retries) ==> retry_count + 1 < max_retries,
        !retryable ==> !requeued(retryable, retry_count, max_retries),
        5 <= backoff_secs(retry_count as int) <= 120,
{
}

} // verus!
