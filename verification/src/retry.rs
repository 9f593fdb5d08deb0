//! Retry policy for one tile fetch: up to 10 attempts, exponential backoff
//! capped at 5000 ms, and a terminal failure once every attempt is spent.
//!
//! The policy is pure: a function from the attempt index to the delay before
//! the next attempt, and a decision function from the attempt index to
//! "sleep then retry" or "give up". The caller that performs the actual
//! network attempts drives this policy in a bounded loop.

use vstd::arithmetic::power2::{lemma2_to64, lemma_pow2_strictly_increases, pow2};
use vstd::prelude::*;

verus! {

/// How many times one tile is requested before the fetch fails for good.
pub const MAX_ATTEMPTS: u32 = 10;

/// Delay after the first failed attempt, in milliseconds.
pub const BASE_DELAY_MS: u64 = 250;

/// Upper bound on any backoff delay, in milliseconds.
pub const DELAY_CAP_MS: u64 = 5000;

/// Backoff delay after failed attempt `attempt` (0-indexed):
/// `min(250 * 2^attempt, 5000)` milliseconds.
pub open spec fn spec_backoff_delay_ms(attempt: nat) -> nat {
    if BASE_DELAY_MS * pow2(attempt) > DELAY_CAP_MS {
        DELAY_CAP_MS as nat
    } else {
        (BASE_DELAY_MS * pow2(attempt)) as nat
    }
}

/// Backoff delay in milliseconds after the failed attempt with the given
/// 0-indexed number: 250, 500, 1000, 2000, 4000, then 5000 for the rest.
pub fn backoff_delay_ms(attempt: u32) -> (delay: u64)
    requires
        attempt < MAX_ATTEMPTS,
    ensures
        delay == spec_backoff_delay_ms(attempt as nat),
        BASE_DELAY_MS <= delay <= DELAY_CAP_MS,
{
    proof {
        lemma2_to64();
        if attempt > 5 {
            lemma_pow2_strictly_increases(5, attempt as nat);
        }
    }
    match attempt {
        0 => 250,
        1 => 500,
        2 => 1000,
        3 => 2000,
        4 => 4000,
        _ => 5000,
    }
}

/// What the fetch loop does after a failed attempt.
#[derive(Clone, Copy, Debug, PartialEq, Eq, Structural)]
pub enum RetryDecision {
    /// Sleep for `delay_ms` milliseconds, then issue the next attempt.
    Retry { delay_ms: u64 },
    /// Every attempt is spent: fail the tile, and with it the whole page.
    GiveUp,
}

/// Decision after the failed attempt with the given 0-indexed number: retry
/// with the backoff delay while attempts remain, and give up after the last
/// one. No delay is spent after the final attempt.
pub fn after_failed_attempt(attempt: u32) -> (decision: RetryDecision)
    requires
        attempt < MAX_ATTEMPTS,
    ensures
        attempt + 1 < MAX_ATTEMPTS ==> decision == (RetryDecision::Retry {
            delay_ms: spec_backoff_delay_ms(attempt as nat) as u64,
        }),
        attempt + 1 == MAX_ATTEMPTS ==> decision == RetryDecision::GiveUp,
{
    if attempt + 1 == MAX_ATTEMPTS {
        RetryDecision::GiveUp
    } else {
        RetryDecision::Retry { delay_ms: backoff_delay_ms(attempt) }
    }
}

/// The whole delay schedule of a tile that fails every attempt: 9 delays
/// between the 10 attempts, `250, 500, 1000, 2000, 4000, 5000, 5000, 5000,
/// 5000` ms, and no delay after the last attempt.
pub proof fn lemma_backoff_schedule()
    ensures
        spec_backoff_delay_ms(0) == 250,
        spec_backoff_delay_ms(1) == 500,
        spec_backoff_delay_ms(2) == 1000,
        spec_backoff_delay_ms(3) == 2000,
        spec_backoff_delay_ms(4) == 4000,
        forall|attempt: nat|
            5 <= attempt < (MAX_ATTEMPTS - 1) ==> spec_backoff_delay_ms(attempt) == 5000,
{
    lemma2_to64();
    assert forall|attempt: nat| 5 <= attempt < (MAX_ATTEMPTS - 1) implies spec_backoff_delay_ms(
        attempt,
    ) == 5000 by {
        if attempt > 5 {
            lemma_pow2_strictly_increases(5, attempt);
        }
    }
}

} // verus!
