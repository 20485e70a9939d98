//! Reconnection back-off: how long to wait before the next attempt.
use vstd::prelude::*;
use vstd::arithmetic::power2::{pow2, lemma2_to64, lemma_pow2_unfold, lemma_pow2_strictly_increases};

verus! {

/// Base delay, in milliseconds, of every back-off.
pub const BACK_OUT_BASE: u64 = 500;

/// Largest increase, in milliseconds, that the back-off adds to the base delay.
pub const MAX_BACK_OUT: u64 = 10000;

/// The delay after `attempts` failed attempts: the base delay plus `2^attempts`
/// milliseconds, the increase capped at `MAX_BACK_OUT`.
pub open spec fn back_out_delay(attempts: nat) -> nat {
    let increase = pow2(attempts);
    BACK_OUT_BASE as nat + if increase > MAX_BACK_OUT as nat { MAX_BACK_OUT as nat } else { increase }
}

/// Beyond 13 attempts the increase `2^attempts` already exceeds the cap.
proof fn lemma_power_exceeds_cap(attempts: nat)
    requires
        attempts > 13,
    ensures
        pow2(attempts) > MAX_BACK_OUT as nat,
{
    lemma2_to64();
    lemma_pow2_strictly_increases(13, attempts);
    lemma_pow2_unfold(14);
    if attempts > 14 {
        lemma_pow2_strictly_increases(14, attempts);
    }
}

/// Milliseconds to wait before reconnection attempt number `attempts`.
pub fn back_out(attempts: u32) -> (delay: u64)
    ensures
        delay as nat == back_out_delay(attempts as nat),
{
    let increase: u64 = if attempts > 13 {
        proof {
            lemma_power_exceeds_cap(attempts as nat);
        }
        MAX_BACK_OUT
    } else {
        let mut result: u64 = 1;
        let mut i: u32 = 0;
        proof {
            lemma2_to64();
        }
        while i < attempts
            invariant
                i <= attempts <= 13,
                result as nat == pow2(i as nat),
                pow2(13) == 8192,
            decreases attempts - i,
        {
            proof {
                lemma_pow2_unfold((i + 1) as nat);
                if i < 13 {
                    lemma_pow2_strictly_increases(i as nat, 13);
                }
            }
            result = result * 2;
            i = i + 1;
        }
        if result > MAX_BACK_OUT {
            MAX_BACK_OUT
        } else {
            result
        }
    };
    BACK_OUT_BASE + increase
}

/// More failed attempts never shorten the wait.
pub proof fn lemma_back_out_monotone(fewer: nat, more: nat)
    requires
        fewer <= more,
    ensures
        back_out_delay(fewer) <= back_out_delay(more),
{
    if fewer < more {
        lemma_pow2_strictly_increases(fewer, more);
    }
}

/// The wait always lies between one millisecond over the base delay and the
/// base delay plus the cap.
pub proof fn lemma_back_out_bounds(attempts: nat)
    ensures
        BACK_OUT_BASE as nat + 1 <= back_out_delay(attempts),
        back_out_delay(attempts) <= (BACK_OUT_BASE + MAX_BACK_OUT) as nat,
{
    lemma2_to64();
    if attempts > 0 {
        lemma_pow2_strictly_increases(0, attempts);
    }
}

/// From the fourteenth attempt on, the wait stays at the base delay plus the cap.
pub proof fn lemma_back_out_saturates(attempts: nat)
    requires
        attempts > 13,
    ensures
        back_out_delay(attempts) == (BACK_OUT_BASE + MAX_BACK_OUT) as nat,
{
    lemma_power_exceeds_cap(attempts);
}

} // verus!
