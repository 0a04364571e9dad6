use vstd::prelude::*;

verus! {

/// A process-lifetime count of requests that reached the service.
///
/// The count never decreases. Callers that share one counter between tasks
/// hold it under an exclusive lock, so each `increment` is one indivisible
/// read-and-update.
pub struct RequestCounter {
    count: u64,
}

impl View for RequestCounter {
    type V = nat;

    closed spec fn view(&self) -> nat {
        self.count as nat
    }
}

/// The value a counter holds after one increment from `c`: one more, held
/// at the largest `u64` once it is reached.
pub open spec fn bumped(c: nat) -> nat {
    if c < u64::MAX as nat {
        c + 1
    } else {
        c
    }
}

/// The value of a counter that held `c` after `k` more increments.
pub open spec fn bumped_from(c: nat, k: nat) -> nat
    decreases k,
{
    if k == 0 {
        c
    } else {
        bumped(bumped_from(c, (k - 1) as nat))
    }
}

impl RequestCounter {
    pub fn new() -> (r: RequestCounter)
        ensures
            r@ == 0,
    {
        RequestCounter { count: 0 }
    }

    /// Counts one request and returns the new total.
    pub fn increment(&mut self) -> (r: u64)
        ensures
            final(self)@ == bumped(old(self)@),
            r as nat == final(self)@,
    {
        if self.count < u64::MAX {
            self.count = self.count + 1;
        }
        self.count
    }

    /// The current total, unchanged.
    pub fn snapshot(&self) -> (r: u64)
        ensures
            r as nat == self@,
    {
        self.count
    }
}

/// A counter never goes down: each increment leaves it at least where it was.
pub proof fn lemma_bumped_monotonic(c: nat)
    ensures
        bumped(c) >= c,
{
}

/// No increment is lost or doubled: a counter that held `c` holds exactly
/// `c + k` after `k` increments, while that stays within the range of `u64`.
pub proof fn lemma_count_exact(c: nat, k: nat)
    requires
        c + k <= u64::MAX as nat,
    ensures
        bumped_from(c, k) == c + k,
    decreases k,
{
    if k > 0 {
        lemma_count_exact(c, (k - 1) as nat);
    }
}

/// Whatever a counter held before, after `k` increments it holds at least
/// `k` and at least what it held.
pub proof fn lemma_count_at_least(c: nat, k: nat)
    requires
        k <= u64::MAX as nat,
    ensures
        bumped_from(c, k) >= k,
        bumped_from(c, k) >= c,
    decreases k,
{
    if k > 0 {
        lemma_count_at_least(c, (k - 1) as nat);
    }
}

} // verus!
