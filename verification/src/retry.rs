//! Retry-with-backoff for flaky operations: the delay doubles after each
//! failed attempt up to a cap, and the final failure surfaces the attempt
//! count.  The schedule is decided here; the surrounding runtime performs
//! the attempts and the sleeps.

use vstd::prelude::*;

verus! {

/// The fixed parameters of a retry loop.
#[derive(Clone, Copy, Debug)]
pub struct RetryPolicy {
    pub max_attempts: u32,
    pub initial_delay_ms: u64,
    pub max_delay_ms: u64,
}

/// What to do after one failed attempt.
#[derive(Clone, Copy, Debug, PartialEq, Eq, Structural)]
pub enum RetryDecision {
    /// Sleep this long, then attempt again.
    RetryAfter(u64),
    /// The attempt limit is exhausted: surface the last error, together
    /// with this many attempts made.
    GiveUp(u32),
}

/// The delay doubles after every failure, capped at `cap`.
pub open spec fn spec_next_delay(delay: nat, cap: nat) -> nat {
    if 2 * delay <= cap {
        2 * delay
    } else {
        cap
    }
}

/// The progress of one retry loop: how many attempts were made and the
/// delay the next failure would impose.
#[derive(Clone, Copy, Debug)]
pub struct RetryState {
    pub policy: RetryPolicy,
    pub attempts_made: u32,
    pub delay_ms: u64,
}

impl RetryState {
    /// A loop that has made its first attempt.
    pub fn start(policy: RetryPolicy) -> (st: RetryState)
        ensures
            st.policy == policy,
            st.attempts_made == 1,
            st.delay_ms == policy.initial_delay_ms,
    {
        RetryState { policy, attempts_made: 1, delay_ms: policy.initial_delay_ms }
    }

    /// Decides after a failed attempt: give up once `max_attempts` have
    /// been made, else sleep the current delay and double it (capped at
    /// `max_delay_ms`) for the next failure.  A timed-out attempt counts
    /// as a failed attempt.
    pub fn on_failure(&mut self) -> (d: RetryDecision)
        ensures
            old(self).attempts_made >= old(self).policy.max_attempts ==> (d
                == RetryDecision::GiveUp(old(self).attempts_made) && *final(self) == *old(self)),
            old(self).attempts_made < old(self).policy.max_attempts ==> (d
                == RetryDecision::RetryAfter(old(self).delay_ms) && final(self).attempts_made
                == old(self).attempts_made + 1 && final(self).delay_ms == spec_next_delay(
                old(self).delay_ms as nat,
                old(self).policy.max_delay_ms as nat,
            ) && final(self).policy == old(self).policy),
    {
        if self.attempts_made >= self.policy.max_attempts {
            RetryDecision::GiveUp(self.attempts_made)
        } else {
            let wait_ms = self.delay_ms;
            self.attempts_made = self.attempts_made + 1;
            if self.delay_ms <= self.policy.max_delay_ms / 2 {
                self.delay_ms = self.delay_ms * 2;
            } else {
                self.delay_ms = self.policy.max_delay_ms;
            }
            RetryDecision::RetryAfter(wait_ms)
        }
    }
}

/// The delay never exceeds the cap once it has been applied, and never
/// shrinks below the cap while growing: each step either doubles the delay
/// or pins it at the cap.
pub proof fn lemma_backoff_bounded(delay: nat, cap: nat)
    ensures
        spec_next_delay(delay, cap) <= cap || spec_next_delay(delay, cap) == 2 * delay,
        delay <= cap ==> spec_next_delay(delay, cap) <= cap,
        spec_next_delay(delay, cap) >= delay || spec_next_delay(delay, cap) == cap,
{
}

} // verus!
