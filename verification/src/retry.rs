//! Retry and backoff policy for failing runs.
//!
//! A failed attempt schedules the next one after a base delay that doubles
//! with every further failure, capped at a maximum.  The base delay is one
//! second and the cap is one minute; both are stated here as the single
//! source of truth for the timing of retries.

use vstd::prelude::*;

verus! {

/// Delay before the first retry, in milliseconds.
pub const BASE_RETRY_DELAY_MS: u64 = 1000;

/// Upper bound on any retry delay, in milliseconds.
pub const MAX_RETRY_DELAY_MS: u64 = 60000;

/// Number of attempts a run is given before it is terminally in error,
/// counting the first one.
pub const DEFAULT_MAX_ATTEMPTS: u32 = 3;

/// The delay scheduled after `failures` failed attempts: the base delay,
/// doubled for each failure past the first, capped at the maximum.
pub open spec fn spec_retry_delay_ms(failures: nat) -> nat
    decreases failures,
{
    if failures <= 1 {
        BASE_RETRY_DELAY_MS as nat
    } else {
        let doubled = 2 * spec_retry_delay_ms((failures - 1) as nat);
        if doubled > MAX_RETRY_DELAY_MS as nat {
            MAX_RETRY_DELAY_MS as nat
        } else {
            doubled
        }
    }
}

/// The delay never exceeds the cap.
pub proof fn lemma_retry_delay_bounded(failures: nat)
    ensures
        spec_retry_delay_ms(failures) <= MAX_RETRY_DELAY_MS as nat,
    decreases failures,
{
    if failures > 1 {
        lemma_retry_delay_bounded((failures - 1) as nat);
    }
}

/// From the seventh failure on, the delay sits at the cap.
proof fn lemma_retry_delay_saturates(failures: nat)
    requires
        failures >= 7,
    ensures
        spec_retry_delay_ms(failures) == MAX_RETRY_DELAY_MS as nat,
    decreases failures,
{
    if failures > 7 {
        lemma_retry_delay_saturates((failures - 1) as nat);
    } else {
        reveal_with_fuel(spec_retry_delay_ms, 8);
    }
}

/// Compute the retry delay after `failures` failed attempts.
pub fn retry_delay_ms(failures: u32) -> (d: u64)
    ensures
        d as nat == spec_retry_delay_ms(failures as nat),
        d <= MAX_RETRY_DELAY_MS,
{
    proof {
        reveal_with_fuel(spec_retry_delay_ms, 8);
        lemma_retry_delay_bounded(failures as nat);
    }
    if failures >= 7 {
        proof {
            lemma_retry_delay_saturates(failures as nat);
        }
        MAX_RETRY_DELAY_MS
    } else if failures <= 1 {
        BASE_RETRY_DELAY_MS
    } else if failures == 2 {
        2000
    } else if failures == 3 {
        4000
    } else if failures == 4 {
        8000
    } else if failures == 5 {
        16000
    } else {
        32000
    }
}

} // verus!
