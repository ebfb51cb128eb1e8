//! Retry delay policy: exponential backoff capped at a maximum delay,
//! reset to the initial delay after a success.
use vstd::prelude::*;

verus! {

/// The next delay after a failure: the current delay multiplied by
/// `factor`, capped at `cap`.
pub open spec fn advanced_delay(current: int, factor: int, cap: int) -> int {
    if current * factor >= cap {
        cap
    } else {
        current * factor
    }
}

/// Backoff state. `current_delay` always lies between `initial_delay`
/// and `max_delay`; it is multiplied (capped) after each failure and
/// reset after each success.
pub struct BackoffPolicy {
    pub initial_delay: u64,
    pub max_delay: u64,
    pub multiplier: u64,
    pub current_delay: u64,
}

impl BackoffPolicy {
    pub open spec fn wf(self) -> bool {
        &&& 1 <= self.initial_delay <= self.max_delay
        &&& 1 <= self.multiplier
        &&& self.initial_delay <= self.current_delay <= self.max_delay
    }

    /// True of `other` when it has the same parameters as `self`.
    pub open spec fn same_policy(self, other: Self) -> bool {
        &&& other.initial_delay == self.initial_delay
        &&& other.max_delay == self.max_delay
        &&& other.multiplier == self.multiplier
    }

    pub fn new(initial_delay: u64, max_delay: u64, multiplier: u64) -> (r: Self)
        requires
            1 <= initial_delay <= max_delay,
            1 <= multiplier,
        ensures
            r.wf(),
            r.initial_delay == initial_delay,
            r.max_delay == max_delay,
            r.multiplier == multiplier,
            r.current_delay == initial_delay,
    {
        BackoffPolicy { initial_delay, max_delay, multiplier, current_delay: initial_delay }
    }

    /// A success resets the delay to the initial delay.
    pub fn on_success(&mut self)
        requires
            old(self).wf(),
        ensures
            final(self).wf(),
            old(self).same_policy(*final(self)),
            final(self).current_delay == old(self).initial_delay,
    {
        self.current_delay = self.initial_delay;
    }

    /// A failed attempt or a lost connection advances the delay:
    /// multiplied by `multiplier`, capped at `max_delay`.
    pub fn on_failure(&mut self)
        requires
            old(self).wf(),
        ensures
            final(self).wf(),
            old(self).same_policy(*final(self)),
            final(self).current_delay == advanced_delay(
                old(self).current_delay as int,
                old(self).multiplier as int,
                old(self).max_delay as int,
            ),
    {
        proof {
            lemma_advance_in_range(
                self.current_delay as int,
                self.multiplier as int,
                self.max_delay as int,
                self.initial_delay as int,
            );
        }
        self.current_delay = match self.current_delay.checked_mul(self.multiplier) {
            Some(product) => if product >= self.max_delay {
                self.max_delay
            } else {
                product
            },
            None => self.max_delay,
        };
    }
}

/// The advanced delay never leaves the `[initial, cap]` range.
proof fn lemma_advance_in_range(current: int, factor: int, cap: int, initial: int)
    requires
        1 <= initial <= cap,
        initial <= current <= cap,
        1 <= factor,
    ensures
        initial <= advanced_delay(current, factor, cap) <= cap,
{
    assert(current * factor >= current * 1 == current) by (nonlinear_arith)
        requires 1 <= factor, current >= 1;
}

/// The delay schedule of the policy with initial delay 2, cap 30 and
/// factor 2: the delay before the `n`-th retry, counting a fresh
/// policy's delay as the zeroth.
pub open spec fn standard_delay(n: nat) -> int
    decreases n,
{
    if n == 0 {
        2
    } else {
        advanced_delay(standard_delay((n - 1) as nat), 2, 30)
    }
}

proof fn lemma_standard_delay_capped(n: nat)
    requires
        n >= 4,
    ensures
        standard_delay(n) == 30,
    decreases n,
{
    if n > 4 {
        lemma_standard_delay_capped((n - 1) as nat);
    } else {
        assert(standard_delay(0) == 2);
        assert(standard_delay(1) == 4);
        assert(standard_delay(2) == 8);
        assert(standard_delay(3) == 16);
        assert(standard_delay(4) == 30);
    }
}

/// With initial delay 2, cap 30 and factor 2, consecutive failure
/// delays are exactly 2, 4, 8, 16, 30, 30, ...; a success resets the
/// delay to 2 (the `ensures` of `BackoffPolicy::on_success`).
pub proof fn lemma_standard_backoff_schedule()
    ensures
        standard_delay(0) == 2,
        standard_delay(1) == 4,
        standard_delay(2) == 8,
        standard_delay(3) == 16,
        forall|n: nat| n >= 4 ==> standard_delay(n) == 30,
{
    assert forall|n: nat| n >= 4 implies standard_delay(n) == 30 by {
        lemma_standard_delay_capped(n);
    }
}

/// Each failure of a policy with the standard parameters moves the
/// delay one step along `standard_delay`.
pub proof fn lemma_failure_follows_schedule(p: BackoffPolicy, n: nat)
    requires
        p.wf(),
        p.initial_delay == 2,
        p.max_delay == 30,
        p.multiplier == 2,
        p.current_delay == standard_delay(n),
    ensures
        advanced_delay(p.current_delay as int, p.multiplier as int, p.max_delay as int)
            == standard_delay(n + 1),
{
}

} // verus!
