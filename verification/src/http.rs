//! Transport settings and the decisions around a call: when a failure is tried
//! again, how long to wait first, and which answers are errors.

use vstd::prelude::*;

use crate::errors::ClientError;

verus! {

/// HTTP settings of a client.
#[derive(Debug, Clone, Copy)]
pub struct HttpConfig {
    /// Time allowed for one attempt, in seconds.
    pub timeout_secs: u64,
    /// How many times a failed call is tried again.
    pub max_retries: u32,
    /// Wait before the first retry, in milliseconds.
    pub initial_backoff_ms: u64,
    /// Longest wait between two attempts, in milliseconds (before jitter).
    pub max_backoff_ms: u64,
}

/// The default settings: 60 s per attempt, 3 retries, waits from 500 ms up to 30 s.
pub open spec fn default_http_config() -> HttpConfig {
    HttpConfig { timeout_secs: 60, max_retries: 3, initial_backoff_ms: 500, max_backoff_ms: 30000 }
}

impl Default for HttpConfig {
    fn default() -> (config: Self)
        ensures
            config == default_http_config(),
    {
        HttpConfig { timeout_secs: 60, max_retries: 3, initial_backoff_ms: 500, max_backoff_ms: 30000 }
    }
}

/// How one attempt ended.
#[derive(Debug, Clone, Copy, PartialEq, Eq, Structural)]
pub enum CallOutcome {
    /// An answer arrived with this status.
    Status(u16),
    /// No answer: the connection failed or timed out.
    TransportError,
}

/// What to do after an attempt.
#[derive(Debug, Clone, Copy, PartialEq, Eq, Structural)]
pub enum RetryStep {
    /// Wait this long, then try again.
    Retry { delay_ms: u64 },
    /// Keep the outcome.
    Stop,
}

/// Failures worth another attempt: no answer, too many requests, or a server error.
pub open spec fn is_retryable(outcome: CallOutcome) -> bool {
    match outcome {
        CallOutcome::TransportError => true,
        CallOutcome::Status(s) => s == 429 || (500 <= s && s <= 599),
    }
}

pub open spec fn min_nat(a: nat, b: nat) -> nat {
    if a <= b { a } else { b }
}

/// The wait before retry number `attempt + 1`: the initial wait doubled `attempt` times,
/// never more than `cap`.
pub open spec fn capped_backoff(initial: nat, attempt: nat, cap: nat) -> nat
    decreases attempt,
{
    if attempt == 0 {
        min_nat(initial, cap)
    } else {
        min_nat(2 * capped_backoff(initial, (attempt - 1) as nat, cap), cap)
    }
}

/// The wait with jitter added: up to half the wait again, picked by `jitter`.
pub open spec fn jittered_delay(base: nat, jitter: nat) -> nat {
    min_nat(base + jitter % (base / 2 + 1), u64::MAX as nat)
}

/// Whether attempt number `attempt` (counting from 0) is followed by another one.
pub fn should_retry(config: &HttpConfig, attempt: u32, outcome: CallOutcome) -> (retry: bool)
    ensures
        retry == (attempt < config.max_retries && is_retryable(outcome)),
{
    let retryable = match outcome {
        CallOutcome::TransportError => true,
        CallOutcome::Status(s) => s == 429 || (500 <= s && s <= 599),
    };
    attempt < config.max_retries && retryable
}

proof fn lemma_backoff_settles(initial: nat, k: nat, j: nat, cap: nat)
    requires
        k <= j,
        capped_backoff(initial, k, cap) == min_nat(2 * capped_backoff(initial, k, cap), cap),
    ensures
        capped_backoff(initial, j, cap) == capped_backoff(initial, k, cap),
    decreases j - k,
{
    if j > k {
        lemma_backoff_settles(initial, k, (j - 1) as nat, cap);
    }
}

/// The wait before the next attempt, without jitter.
pub fn base_delay_ms(config: &HttpConfig, attempt: u32) -> (delay: u64)
    ensures
        delay as nat == capped_backoff(config.initial_backoff_ms as nat, attempt as nat, config.max_backoff_ms as nat),
{
    let cap = config.max_backoff_ms;
    let mut d: u64 = if config.initial_backoff_ms <= cap { config.initial_backoff_ms } else { cap };
    let mut k: u32 = 0;
    let ghost initial = config.initial_backoff_ms as nat;
    while k < attempt
        invariant
            k <= attempt,
            d <= cap,
            cap == config.max_backoff_ms,
            initial == config.initial_backoff_ms as nat,
            d as nat == capped_backoff(initial, k as nat, cap as nat),
        decreases attempt - k,
    {
        let next: u64 = if d >= cap - d { cap } else { 2 * d };
        if next == d {
            proof {
                lemma_backoff_settles(initial, k as nat, attempt as nat, cap as nat);
            }
            return d;
        }
        d = next;
        k = k + 1;
    }
    d
}

/// The wait before the next attempt: the doubled, capped wait plus jitter.
pub fn backoff_delay_ms(config: &HttpConfig, attempt: u32, jitter: u64) -> (delay: u64)
    ensures
        delay as nat == jittered_delay(
            capped_backoff(config.initial_backoff_ms as nat, attempt as nat, config.max_backoff_ms as nat),
            jitter as nat,
        ),
{
    let base = base_delay_ms(config, attempt);
    let extra = jitter % (base / 2 + 1);
    base.saturating_add(extra)
}

/// What follows attempt number `attempt`: another try after a wait when the failure is
/// worth retrying and retries are left, else stop.
pub fn next_step(config: &HttpConfig, attempt: u32, outcome: CallOutcome, jitter: u64) -> (step: RetryStep)
    ensures
        match step {
            RetryStep::Retry { delay_ms } => attempt < config.max_retries && is_retryable(outcome)
                && delay_ms as nat == jittered_delay(
                    capped_backoff(config.initial_backoff_ms as nat, attempt as nat, config.max_backoff_ms as nat),
                    jitter as nat,
                ),
            RetryStep::Stop => !(attempt < config.max_retries && is_retryable(outcome)),
        },
{
    if should_retry(config, attempt, outcome) {
        RetryStep::Retry { delay_ms: backoff_delay_ms(config, attempt, jitter) }
    } else {
        RetryStep::Stop
    }
}

/// The error for an answer outside the 2xx range: an API error with the status and the
/// body as message. A 2xx answer is no error.
pub fn status_failure(status: u16, body: String) -> (err: Option<ClientError>)
    ensures
        200 <= status <= 299 ==> err is None,
        !(200 <= status <= 299) ==> (err matches Some(ClientError::Api { status: s, message })
            && s == status && message@ == body@),
{
    if 200 <= status && status <= 299 {
        None
    } else {
        Some(ClientError::Api { status, message: body })
    }
}

/// The waits never shrink from one retry to the next.
pub proof fn lemma_backoff_monotone(initial: nat, cap: nat, a: nat, b: nat)
    requires
        a <= b,
    ensures
        capped_backoff(initial, a, cap) <= capped_backoff(initial, b, cap),
    decreases b - a,
{
    if a < b {
        lemma_backoff_monotone(initial, cap, a, (b - 1) as nat);
        lemma_backoff_bounded(initial, cap, (b - 1) as nat);
        let prev = capped_backoff(initial, (b - 1) as nat, cap);
        assert(prev <= cap);
        assert(prev <= min_nat(2 * prev, cap));
    }
}

/// A wait, before jitter, is never longer than the cap.
pub proof fn lemma_backoff_bounded(initial: nat, cap: nat, attempt: nat)
    ensures
        capped_backoff(initial, attempt, cap) <= cap,
    decreases attempt,
{
    if attempt > 0 {
        lemma_backoff_bounded(initial, cap, (attempt - 1) as nat);
    }
}

/// Jitter adds at most half the wait, and never takes anything away.
pub proof fn lemma_jitter_bounds(base: nat, jitter: nat)
    requires
        base <= u64::MAX,
    ensures
        base <= jittered_delay(base, jitter) <= base + base / 2,
{
    assert(jitter % (base / 2 + 1) <= base / 2) by (nonlinear_arith)
        requires base / 2 + 1 > 0;
}

} // verus!
