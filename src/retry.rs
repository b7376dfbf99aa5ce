//! The retry policy around audit attempts: a failed attempt is retried
//! after an exponentially growing pause until a bounded number of attempts
//! has failed.
use vstd::prelude::*;

verus! {

/// No more attempts than this are made, whatever the configuration says.
pub const MAX_TRIES: usize = 30;

/// The longest pause between two attempts, in seconds.
pub const MAX_BACKOFF_SECS: u64 = 120;

pub open spec fn pow2(n: nat) -> nat
    decreases n,
{
    if n == 0 {
        1
    } else {
        2 * pow2((n - 1) as nat)
    }
}

/// The pause after the `k`-th failed attempt (from one): `2 * 2^(k-1)`
/// seconds, at most `MAX_BACKOFF_SECS`.
pub open spec fn backoff(k: nat) -> nat {
    let d = 2 * pow2((k - 1) as nat);
    if d < MAX_BACKOFF_SECS {
        d
    } else {
        MAX_BACKOFF_SECS as nat
    }
}

/// The number of failed attempts after which the scheduler gives up, for a
/// configured number of tries.
pub open spec fn try_limit(tries: nat) -> nat {
    if tries == 0 {
        1
    } else if tries > MAX_TRIES {
        MAX_TRIES as nat
    } else {
        tries
    }
}

/// The pause after the `attempt`-th failed attempt, in seconds.
pub fn backoff_secs(attempt: usize) -> (r: u64)
    requires
        attempt >= 1,
    ensures
        r == backoff(attempt as nat),
{
    let mut d: u64 = 2;
    let mut i: usize = 1;
    while i < attempt
        invariant
            1 <= i <= attempt,
            d == backoff(i as nat),
        decreases attempt - i,
    {
        proof {
            assert(pow2(i as nat) == 2 * pow2((i - 1) as nat));
        }
        if d >= 60 {
            d = MAX_BACKOFF_SECS;
        } else {
            d = d * 2;
        }
        i += 1;
    }
    d
}

/// What to do after an attempt.
#[derive(Debug, Clone, Copy, PartialEq, Eq)]
pub enum RetryDecision {
    /// The attempt succeeded: its report is final.
    Finish,
    /// The attempt failed and was the last allowed: its report is final.
    GiveUp,
    /// The attempt failed: pause this long, then make a fresh attempt.
    Retry { delay_secs: u64 },
}

/// The scheduler's state as plain values.
pub struct RetryModel {
    /// Failed attempts so far.
    pub failures: nat,
    /// Failed attempts after which it gives up.
    pub limit: nat,
}

/// The decision after an attempt that `failed` or not, in state `m`.
pub open spec fn decision(m: RetryModel, failed: bool) -> RetryDecision {
    if !failed {
        RetryDecision::Finish
    } else if m.failures + 1 >= m.limit {
        RetryDecision::GiveUp
    } else {
        RetryDecision::Retry { delay_secs: backoff(m.failures + 1) as u64 }
    }
}

/// Counts failed attempts of one audit cycle and decides after each
/// attempt whether to finish, retry or give up.
pub struct RetryScheduler {
    failures: usize,
    limit: usize,
}

impl View for RetryScheduler {
    type V = RetryModel;

    closed spec fn view(&self) -> RetryModel {
        RetryModel { failures: self.failures as nat, limit: self.limit as nat }
    }
}

impl RetryScheduler {
    #[verifier::type_invariant]
    spec fn inv(self) -> bool {
        1 <= self.limit <= MAX_TRIES && self.failures < self.limit
    }

    /// A scheduler for a cycle with `tries` allowed attempts (at most
    /// `MAX_TRIES`; none configured counts as one).
    pub fn new(tries: usize) -> (r: Self)
        ensures
            r@ == (RetryModel { failures: 0, limit: try_limit(tries as nat) }),
    {
        let limit = if tries == 0 {
            1
        } else if tries > MAX_TRIES {
            MAX_TRIES
        } else {
            tries
        };
        RetryScheduler { failures: 0, limit }
    }

    /// Failed attempts so far.
    pub fn failures(&self) -> (r: usize)
        ensures
            r == self@.failures,
    {
        self.failures
    }

    /// Decides after an attempt. A failed attempt that is not the last
    /// allowed one is counted.
    pub fn after_attempt(&mut self, failed: bool) -> (d: RetryDecision)
        ensures
            d == decision(old(self)@, failed),
            final(self)@.limit == old(self)@.limit,
            final(self)@.failures == if d is Retry {
                old(self)@.failures + 1
            } else {
                old(self)@.failures
            },
            old(self)@.failures < old(self)@.limit <= MAX_TRIES,
    {
        proof {
            use_type_invariant(&*self);
        }
        if !failed {
            return RetryDecision::Finish;
        }
        let n = self.failures + 1;
        if n >= self.limit {
            RetryDecision::GiveUp
        } else {
            *self = RetryScheduler { failures: n, limit: self.limit };
            RetryDecision::Retry { delay_secs: backoff_secs(n) }
        }
    }
}

/// The state after `k` failed attempts, for `tries` configured.
pub open spec fn after_failures(tries: nat, k: nat) -> RetryModel {
    RetryModel { failures: k, limit: try_limit(tries) }
}

/// With `tries` configured, the `k`-th consecutive failed attempt ends the
/// cycle exactly when `k` reaches `min(tries, MAX_TRIES)`; before that it is
/// retried after `min(2 * 2^(k-1), MAX_BACKOFF_SECS)` seconds.
pub proof fn gives_up_exactly_at_limit(tries: nat, k: nat)
    requires
        tries >= 1,
        1 <= k <= try_limit(tries),
    ensures
        try_limit(tries) == if tries < MAX_TRIES {
            tries
        } else {
            MAX_TRIES as nat
        },
        decision(after_failures(tries, (k - 1) as nat), true) == if k == try_limit(tries) {
            RetryDecision::GiveUp
        } else {
            RetryDecision::Retry { delay_secs: backoff(k) as u64 }
        },
{
}

} // verus!
