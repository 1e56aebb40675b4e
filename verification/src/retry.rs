//! How long to wait before a request is sent again.

use crate::connection::RetryParams;
use crate::random::random_between;
use vstd::prelude::*;

verus! {

/// Two to the power of `n`.
pub open spec fn pow2(n: nat) -> nat
    decreases n,
{
    if n == 0 {
        1
    } else {
        2 * pow2((n - 1) as nat)
    }
}

/// The wait before retry number `retry`, before jitter: the base wait
/// doubled with each retry after the first, but never more than the longest
/// wait.
pub open spec fn clamped_wait(params: RetryParams, retry: u32) -> nat {
    let doublings = if retry == 0 {
        0nat
    } else {
        (retry - 1) as nat
    };
    let wait = (params.base_wait * pow2(doublings)) as nat;
    if wait <= params.max_wait {
        wait
    } else {
        params.max_wait as nat
    }
}

/// The wait before retry number `retry` with jitter: the random sample
/// picks a duration between half the clamped wait and the clamped wait.
pub open spec fn jittered_wait(params: RetryParams, retry: u32, sample: u64) -> nat {
    let high = clamped_wait(params, retry);
    let low = high / 2;
    (low + (sample as int) % (high - low + 1)) as nat
}

proof fn lemma_pow2_grows(a: nat, b: nat)
    requires
        a <= b,
    ensures
        pow2(a) <= pow2(b),
        pow2(a) >= 1,
    decreases b,
{
    if a < b {
        lemma_pow2_grows(a, (b - 1) as nat);
    } else if a > 0 {
        lemma_pow2_grows((a - 1) as nat, (a - 1) as nat);
    }
}

proof fn lemma_scaled_grows(base: nat, a: nat, b: nat)
    requires
        a <= b,
    ensures
        base * pow2(a) <= base * pow2(b),
{
    lemma_pow2_grows(a, b);
    assert(base * pow2(a) <= base * pow2(b)) by (nonlinear_arith)
        requires
            pow2(a) <= pow2(b),
    ;
}

impl RetryParams {
    /// The wait before retry number `retry`, in milliseconds, before jitter.
    pub fn clamped_wait_for_retry(&self, retry: u32) -> (wait: u64)
        ensures
            wait == clamped_wait(*self, retry),
            wait <= self.max_wait,
    {
        let doublings: u32 = if retry == 0 {
            0
        } else {
            retry - 1
        };
        if self.base_wait == 0 {
            assert(self.base_wait * pow2(doublings as nat) == 0) by (nonlinear_arith)
                requires
                    self.base_wait == 0,
            ;
            return 0;
        }
        let mut wait: u64 = self.base_wait;
        let mut done: u32 = 0;
        assert(pow2(0) == 1);
        while done < doublings && wait <= self.max_wait
            invariant
                done <= doublings,
                doublings == if retry == 0 {
                    0
                } else {
                    retry - 1
                },
                wait == self.base_wait * pow2(done as nat),
                wait > 0,
            decreases doublings - done,
        {
            proof {
                lemma_scaled_grows(self.base_wait as nat, (done + 1) as nat, doublings as nat);
                assert(self.base_wait * pow2((done + 1) as nat) == 2 * (self.base_wait * pow2(
                    done as nat,
                ))) by (nonlinear_arith)
                    requires
                        pow2((done + 1) as nat) == 2 * pow2(done as nat),
                ;
            }
            if wait > self.max_wait / 2 {
                return self.max_wait;
            }
            wait = wait * 2;
            done += 1;
        }
        proof {
            lemma_scaled_grows(self.base_wait as nat, done as nat, doublings as nat);
        }
        if wait <= self.max_wait {
            wait
        } else {
            self.max_wait
        }
    }

    /// The wait before retry number `retry`, in milliseconds, for a given
    /// random sample. The same sample gives the same wait.
    pub fn wait_time_for_sample(&self, retry: u32, sample: u64) -> (wait: u64)
        ensures
            wait == jittered_wait(*self, retry, sample),
            clamped_wait(*self, retry) / 2 <= wait <= clamped_wait(*self, retry),
    {
        let high = self.clamped_wait_for_retry(retry);
        let low = high / 2;
        low + sample % (high - low + 1)
    }

    /// The wait before retry number `retry`, in milliseconds: a random
    /// duration between half the clamped wait and the clamped wait.
    pub fn wait_time_for_retry(&self, retry: u32) -> (wait: u64)
        ensures
            clamped_wait(*self, retry) / 2 <= wait <= clamped_wait(*self, retry),
            exists|sample: u64| wait == #[trigger] jittered_wait(*self, retry, sample),
    {
        let sample = random_between(0, u64::MAX);
        self.wait_time_for_sample(retry, sample)
    }
}

} // verus!
