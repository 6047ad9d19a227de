use vstd::prelude::*;
use crate::error::ADBResult;

verus! {

/// The ceiling on the delay between two attempts, in milliseconds.
pub const MAX_RETRY_DELAY_MS: u64 = 10000;

/// How often to retry a failing operation, and how long to wait first.
#[derive(Debug, Clone, Copy, PartialEq, Eq)]
pub struct RetryPolicy {
    /// Attempts allowed after the first failure.
    pub max_retries: u32,
    /// The delay before the first retry, in milliseconds.
    pub initial_delay_ms: u64,
}

/// The delay that follows `d`: doubled, but never above the ceiling.
pub open spec fn next_delay_spec(d: u64) -> u64 {
    if 2 * d <= MAX_RETRY_DELAY_MS {
        (2 * d) as u64
    } else {
        MAX_RETRY_DELAY_MS
    }
}

/// The delay before retry number `k + 1`, counting from zero.
pub open spec fn delay_before_retry(initial: u64, k: nat) -> u64
    decreases k,
{
    if k == 0 {
        initial
    } else {
        next_delay_spec(delay_before_retry(initial, (k - 1) as nat))
    }
}

/// What to do after a failed attempt.
#[derive(Debug, Clone, Copy, PartialEq, Eq)]
pub enum RetryStep {
    /// Wait `delay_ms` milliseconds, then attempt again.
    Retry { delay_ms: u64 },
    /// The budget is spent: report the last error.
    GiveUp,
}

/// The decision taken at the failure that follows `k` retries.
pub open spec fn step_after(policy: RetryPolicy, k: nat) -> RetryStep {
    if k >= policy.max_retries {
        RetryStep::GiveUp
    } else {
        RetryStep::Retry { delay_ms: delay_before_retry(policy.initial_delay_ms, k) }
    }
}

/// Progress of one retried call: the retries made so far and the next delay.
#[derive(Debug, Clone, Copy, PartialEq, Eq)]
pub struct RetryState {
    pub retries: u32,
    pub delay_ms: u64,
}

impl RetryState {
    /// The state of a retried call before its first attempt.
    pub fn new(policy: &RetryPolicy) -> (s: RetryState)
        ensures
            s.retries == 0,
            s.delay_ms == policy.initial_delay_ms,
    {
        RetryState { retries: 0, delay_ms: policy.initial_delay_ms }
    }

    /// Whether this state is the one reached after `self.retries` failed
    /// attempts under `policy`.
    pub open spec fn reached_under(self, policy: RetryPolicy) -> bool {
        &&& self.retries <= policy.max_retries
        &&& self.delay_ms == delay_before_retry(policy.initial_delay_ms, self.retries as nat)
    }

    /// Records a failed attempt and says whether to retry, and after which delay.
    pub fn on_failure(&mut self, policy: &RetryPolicy) -> (step: RetryStep)
        ensures
            old(self).retries >= policy.max_retries ==> step == RetryStep::GiveUp && *final(self)
                == *old(self),
            old(self).retries < policy.max_retries ==> step == (RetryStep::Retry {
                delay_ms: old(self).delay_ms,
            }) && final(self).retries == old(self).retries + 1 && final(self).delay_ms
                == next_delay_spec(old(self).delay_ms),
            old(self).reached_under(*policy) ==> final(self).reached_under(*policy) && step
                == step_after(*policy, old(self).retries as nat),
    {
        if self.retries >= policy.max_retries {
            RetryStep::GiveUp
        } else {
            let delay = self.delay_ms;
            self.retries = self.retries + 1;
            self.delay_ms = next_delay(delay);
            RetryStep::Retry { delay_ms: delay }
        }
    }
}

/// The delay that follows `d`: doubled, capped at the ceiling.
pub fn next_delay(d: u64) -> (r: u64)
    ensures
        r == next_delay_spec(d),
{
    if d <= MAX_RETRY_DELAY_MS / 2 {
        2 * d
    } else {
        MAX_RETRY_DELAY_MS
    }
}

/// Runs `f` until it succeeds or the retry budget of `policy` is spent,
/// calling `sleep` with the backoff delay before each retry. The first
/// attempt is always made. Returns the result of the last attempt,
/// unchanged, with the state reached: its `retries` counts the attempts made
/// after the first, all of `max_retries` when every attempt failed.
pub fn run_with_retry<T, F, S>(policy: &RetryPolicy, f: F, sleep: S) -> (r: (ADBResult<T>, RetryState))
    where
        F: Fn() -> ADBResult<T>,
        S: Fn(u64),
    requires
        f.requires(()),
        forall|d: u64| sleep.requires((d,)),
    ensures
        f.ensures((), r.0),
        r.1.reached_under(*policy),
        r.0 is Err ==> r.1.retries == policy.max_retries,
{
    let mut state = RetryState::new(policy);
    loop
        invariant
            state.reached_under(*policy),
            f.requires(()),
            forall|d: u64| sleep.requires((d,)),
        decreases policy.max_retries - state.retries,
    {
        let outcome = f();
        match outcome {
            Ok(v) => {
                return (Ok(v), state);
            },
            Err(e) => {
                match state.on_failure(policy) {
                    RetryStep::GiveUp => {
                        return (Err(e), state);
                    },
                    RetryStep::Retry { delay_ms } => {
                        sleep(delay_ms);
                    },
                }
            },
        }
    }
}

/// Runs `f` until it succeeds or `max_retries` retries after the first
/// attempt have failed, sleeping `initial_delay_ms` before the first retry
/// and doubling the delay, up to the ceiling, before each later one. The
/// result is that of the last attempt, unchanged.
pub fn retry_with_backoff<T, F, S>(
    max_retries: u32,
    initial_delay_ms: u64,
    f: F,
    sleep: S,
) -> (r: ADBResult<T>)
    where
        F: Fn() -> ADBResult<T>,
        S: Fn(u64),
    requires
        f.requires(()),
        forall|d: u64| sleep.requires((d,)),
    ensures
        f.ensures((), r),
{
    let policy = RetryPolicy { max_retries, initial_delay_ms };
    run_with_retry(&policy, f, sleep).0
}

/// A permanently failing operation is attempted exactly `max_retries + 1`
/// times: each of the first `max_retries` failures leads to a retry, and the
/// one after them ends the call.
pub proof fn law_failing_operation_attempts(policy: RetryPolicy)
    ensures
        forall|k: nat| k < policy.max_retries ==> #[trigger] step_after(policy, k) is Retry,
        step_after(policy, policy.max_retries as nat) == RetryStep::GiveUp,
{
}

/// The delays between attempts: the first retry waits the initial delay, and
/// each later one waits the smaller of twice the previous delay and the ceiling.
pub proof fn law_delay_sequence(initial: u64, k: nat)
    ensures
        delay_before_retry(initial, 0) == initial,
        delay_before_retry(initial, k + 1) as int == if 2 * delay_before_retry(initial, k)
            <= MAX_RETRY_DELAY_MS {
            2 * delay_before_retry(initial, k)
        } else {
            MAX_RETRY_DELAY_MS as int
        },
        k > 0 ==> delay_before_retry(initial, k) <= MAX_RETRY_DELAY_MS,
    decreases k,
{
    if k > 1 {
        law_delay_sequence(initial, (k - 1) as nat);
    }
}

} // verus!
