//! The fetcher's decisions: how one HTTP attempt is classified, whether it is
//! retried, and after how long. The caller performs each attempt and each wait.

use vstd::prelude::*;

verus! {

/// The terminal outcome of fetching one URL.
pub enum FetchOutcome {
    Success(String),
    HttpError(u16),
    NetworkError(String),
    Timeout,
}

pub enum OutcomeView {
    Success(Seq<char>),
    HttpError(u16),
    NetworkError(Seq<char>),
    Timeout,
}

impl View for FetchOutcome {
    type V = OutcomeView;

    open spec fn view(&self) -> OutcomeView {
        match self {
            FetchOutcome::Success(b) => OutcomeView::Success(b@),
            FetchOutcome::HttpError(s) => OutcomeView::HttpError(*s),
            FetchOutcome::NetworkError(c) => OutcomeView::NetworkError(c@),
            FetchOutcome::Timeout => OutcomeView::Timeout,
        }
    }
}

/// What a single attempt produced.
pub enum AttemptResult {
    Response { status: u16, body: String },
    NetworkError(String),
    Timeout,
}

/// What the fetcher does after an attempt.
pub enum RetryStep {
    Retry { delay_ms: u64 },
    Done(FetchOutcome),
}

/// The delay before the second attempt; each later one doubles it.
pub const BACKOFF_BASE_MS: u64 = 200;

/// No URL is attempted more often than this, whatever the retry budget.
pub const ATTEMPT_CAP: u32 = 3;

pub open spec fn success_status(status: u16) -> bool {
    200 <= status <= 299
}

/// A server error (5xx) is transient; any other failing status is permanent.
pub open spec fn transient_status(status: u16) -> bool {
    500 <= status <= 599
}

/// How many attempts a URL gets with a budget of `max_retries` retries.
pub open spec fn attempt_limit(max_retries: nat) -> nat {
    if max_retries + 1 <= ATTEMPT_CAP {
        max_retries + 1
    } else {
        ATTEMPT_CAP as nat
    }
}

/// The wait after attempt number `attempts_made` failed: 200 ms, then doubling.
pub open spec fn backoff_ms(attempts_made: nat) -> nat
    decreases attempts_made,
{
    if attempts_made <= 1 {
        BACKOFF_BASE_MS as nat
    } else {
        2 * backoff_ms((attempts_made - 1) as nat)
    }
}

/// The outcome that an attempt stands for when it is not retried.
pub open spec fn classify(result: AttemptResult) -> OutcomeView {
    match result {
        AttemptResult::Response { status, body } => if success_status(status) {
            OutcomeView::Success(body@)
        } else {
            OutcomeView::HttpError(status)
        },
        AttemptResult::NetworkError(c) => OutcomeView::NetworkError(c@),
        AttemptResult::Timeout => OutcomeView::Timeout,
    }
}

/// Network errors and server errors are retried; client errors are permanent
/// and a timeout is surfaced for the caller to decide on.
pub open spec fn retryable(result: AttemptResult) -> bool {
    match result {
        AttemptResult::Response { status, .. } => transient_status(status),
        AttemptResult::NetworkError(_) => true,
        AttemptResult::Timeout => false,
    }
}

pub fn is_transient_status(status: u16) -> (r: bool)
    ensures
        r == transient_status(status),
{
    500 <= status && status <= 599
}

pub fn max_attempts(max_retries: u32) -> (r: u32)
    ensures
        r == attempt_limit(max_retries as nat),
{
    if max_retries >= ATTEMPT_CAP - 1 {
        ATTEMPT_CAP
    } else {
        max_retries + 1
    }
}

pub fn backoff_delay_ms(attempts_made: u32) -> (r: u64)
    requires
        1 <= attempts_made <= ATTEMPT_CAP,
    ensures
        r == backoff_ms(attempts_made as nat),
{
    let mut delay: u64 = BACKOFF_BASE_MS;
    let mut k: u32 = 1;
    while k < attempts_made
        invariant
            1 <= k <= attempts_made <= ATTEMPT_CAP,
            delay == backoff_ms(k as nat),
            k == 1 ==> delay == 200,
            k == 2 ==> delay == 400,
            k == 3 ==> delay == 800,
        decreases attempts_made - k,
    {
        assert(backoff_ms((k + 1) as nat) == 2 * backoff_ms(k as nat));
        delay = delay * 2;
        k = k + 1;
    }
    delay
}

/// The outcome an attempt stands for when it is final.
pub fn classify_attempt(result: AttemptResult) -> (r: FetchOutcome)
    ensures
        r@ == classify(result),
{
    match result {
        AttemptResult::Response { status, body } => if 200 <= status && status <= 299 {
            FetchOutcome::Success(body)
        } else {
            FetchOutcome::HttpError(status)
        },
        AttemptResult::NetworkError(c) => FetchOutcome::NetworkError(c),
        AttemptResult::Timeout => FetchOutcome::Timeout,
    }
}

/// After attempt number `attempts_made` produced `result`: retry after the
/// backoff delay while the result is retryable and attempts remain, else stop
/// with the classified outcome.
pub fn next_step(attempts_made: u32, max_retries: u32, result: AttemptResult) -> (r: RetryStep)
    requires
        1 <= attempts_made,
    ensures
        (retryable(result) && attempts_made < attempt_limit(max_retries as nat)) ==> r
            == (RetryStep::Retry { delay_ms: backoff_ms(attempts_made as nat) as u64 }),
        !(retryable(result) && attempts_made < attempt_limit(max_retries as nat)) ==> (
        r is Done && r->Done_0@ == classify(result)),
{
    let retry = match &result {
        AttemptResult::Response { status, .. } => is_transient_status(*status),
        AttemptResult::NetworkError(_) => true,
        AttemptResult::Timeout => false,
    };
    if retry && attempts_made < max_attempts(max_retries) {
        RetryStep::Retry { delay_ms: backoff_delay_ms(attempts_made) }
    } else {
        RetryStep::Done(classify_attempt(result))
    }
}

} // verus!
