//! Retry decisions for fetches from the node: transient failures are tried
//! again after a doubling, capped delay; other failures, and a transient one
//! after the last allowed attempt, end the chunk.
use vstd::prelude::*;

verus! {

/// What to do after a failed fetch.
#[derive(Clone, Copy, Debug, PartialEq, Eq, Structural)]
pub enum FetchAction {
    Retry { delay_ms: u64 },
    Fail,
}

/// `2` to the power `n`.
pub open spec fn pow2(n: nat) -> nat
    decreases n,
{
    if n == 0 {
        1
    } else {
        2 * pow2((n - 1) as nat)
    }
}

/// The delay before retry number `n + 1`: the base delay doubled `n` times,
/// but never more than the cap.
pub open spec fn backoff_delay(base_ms: nat, cap_ms: nat, n: nat) -> nat {
    if base_ms * pow2(n) <= cap_ms {
        base_ms * pow2(n)
    } else {
        cap_ms
    }
}

/// The action after `failed` consecutive failed attempts (at least one),
/// the last one transient or not, when at most `max_attempts` are allowed.
pub open spec fn fetch_action(
    failed: nat,
    transient: bool,
    max_attempts: nat,
    base_ms: nat,
    cap_ms: nat,
) -> FetchAction {
    if transient && failed < max_attempts {
        FetchAction::Retry { delay_ms: backoff_delay(base_ms, cap_ms, (failed - 1) as nat) as u64 }
    } else {
        FetchAction::Fail
    }
}

/// Decides what follows a failed fetch.
pub fn next_fetch_action(failed: u32, transient: bool, max_attempts: u32, base_ms: u64, cap_ms: u64) -> (r:
    FetchAction)
    requires
        failed >= 1,
    ensures
        r == fetch_action(failed as nat, transient, max_attempts as nat, base_ms as nat, cap_ms as nat),
{
    if !transient || failed >= max_attempts {
        return FetchAction::Fail;
    }
    let mut delay: u64 = if base_ms <= cap_ms {
        base_ms
    } else {
        cap_ms
    };
    assert(pow2(0) == 1);
    assert(base_ms * pow2(0) == base_ms);
    let mut i: u32 = 0;
    while i < failed - 1
        invariant
            i <= failed - 1,
            delay == backoff_delay(base_ms as nat, cap_ms as nat, i as nat),
        decreases failed - 1 - i,
    {
        proof {
            let x = base_ms * pow2(i as nat);
            assert(base_ms * pow2((i + 1) as nat) == 2 * x) by (nonlinear_arith)
                requires
                    pow2((i + 1) as nat) == 2 * pow2(i as nat),
                    x == base_ms * pow2(i as nat),
            ;
        }
        delay = if delay <= cap_ms / 2 {
            delay * 2
        } else {
            cap_ms
        };
        i = i + 1;
    }
    FetchAction::Retry { delay_ms: delay }
}

} // verus!
