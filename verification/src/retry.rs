//! Retry policy and the retry executor's control logic.
//!
//! A `Policy` bounds the number of retries and shapes the exponential
//! backoff inserted between attempts. `compute_backoff` is the pure
//! delay function; `retry_step` decides, after one attempt, whether the
//! executor is done, must sleep and try again, or is exhausted.

use vstd::prelude::*;
use vstd::arithmetic::power::{pow, lemma_pow_increases, lemma_pow0};
use vstd::arithmetic::mul::{lemma_mul_inequality, lemma_mul_is_commutative};

verus! {

/// Retry policy for one sink: up to `max_retries` retries after the
/// initial attempt, with delay `min(backoff_unit * backoff_factor^k,
/// max_backoff)` before retry `k`. Durations are in milliseconds.
#[derive(Clone, Copy, Debug)]
pub struct Policy {
    pub max_retries: u32,
    pub backoff_unit: u64,
    pub backoff_factor: u32,
    pub max_backoff: u64,
}

impl Policy {
    /// A policy is well formed when the factor is at least one and the
    /// starting delay does not exceed the cap.
    pub open spec fn wf(self) -> bool {
        &&& self.backoff_factor >= 1
        &&& self.backoff_unit <= self.max_backoff
    }
}

pub const DEFAULT_MAX_RETRIES: u32 = 20;
pub const DEFAULT_BACKOFF_UNIT: u64 = 5_000;

impl Default for Policy {
    /// The policy used when configuration gives none: 20 retries,
    /// 5 s unit, doubling, capped at 20 times the unit (100 s).
    fn default() -> (p: Policy)
        ensures
            p.max_retries == DEFAULT_MAX_RETRIES,
            p.backoff_unit == DEFAULT_BACKOFF_UNIT,
            p.backoff_factor == 2,
            p.max_backoff == DEFAULT_BACKOFF_UNIT * 20,
            p.wf(),
    {
        Policy {
            max_retries: DEFAULT_MAX_RETRIES,
            backoff_unit: DEFAULT_BACKOFF_UNIT,
            backoff_factor: 2,
            max_backoff: DEFAULT_BACKOFF_UNIT * 20,
        }
    }
}

/// Delay before retry `k` (0-based, counting retries after the first
/// attempt): the backoff unit grown by `factor^k`, capped at
/// `max_backoff`. The initial attempt itself has no delay.
pub open spec fn spec_delay(policy: Policy, k: nat) -> nat {
    let grown = policy.backoff_unit * pow(policy.backoff_factor as int, k);
    if grown <= policy.max_backoff as int {
        grown as nat
    } else {
        policy.max_backoff as nat
    }
}

/// Computes `spec_delay` exactly, saturating intermediate powers so
/// that large exponents cap to `max_backoff` instead of overflowing.
pub fn compute_backoff(policy: &Policy, k: u32) -> (d: u64)
    requires
        policy.wf(),
    ensures
        d as nat == spec_delay(*policy, k as nat),
{
    let factor = policy.backoff_factor as u64;
    let mut d: u64 = policy.backoff_unit;
    let mut i: u32 = 0;
    proof {
        lemma_pow0(policy.backoff_factor as int);
    }
    while i < k
        invariant
            policy.wf(),
            i <= k,
            factor == policy.backoff_factor,
            ({
                let exact = policy.backoff_unit * pow(policy.backoff_factor as int, i as nat);
                d as int == if exact <= u64::MAX as int {
                    exact
                } else {
                    u64::MAX as int
                }
            }),
        decreases k - i,
    {
        if d >= policy.max_backoff {
            proof {
                lemma_grown_monotonic(*policy, i as nat, k as nat);
            }
            return policy.max_backoff;
        }
        proof {
            lemma_pow_step(*policy, i as nat);
            assert((d as u128) * (factor as u128) <= u128::MAX) by (nonlinear_arith)
                requires
                    d <= u64::MAX,
                    factor <= u64::MAX;
        }
        let wide: u128 = (d as u128) * (factor as u128);
        d = if wide > u64::MAX as u128 {
            u64::MAX
        } else {
            wide as u64
        };
        i = i + 1;
    }
    if d >= policy.max_backoff {
        policy.max_backoff
    } else {
        d
    }
}

/// The grown (uncapped) delay is monotonic in the retry index, so once
/// it reaches `max_backoff` every later delay is `max_backoff` too.
proof fn lemma_grown_monotonic(policy: Policy, i: nat, k: nat)
    requires
        policy.wf(),
        i <= k,
    ensures
        policy.backoff_unit * pow(policy.backoff_factor as int, i)
            <= policy.backoff_unit * pow(policy.backoff_factor as int, k),
{
    lemma_pow_increases(policy.backoff_factor as nat, i, k);
    lemma_mul_inequality(
        pow(policy.backoff_factor as int, i),
        pow(policy.backoff_factor as int, k),
        policy.backoff_unit as int,
    );
    lemma_mul_is_commutative(policy.backoff_unit as int, pow(policy.backoff_factor as int, i));
    lemma_mul_is_commutative(policy.backoff_unit as int, pow(policy.backoff_factor as int, k));
}

/// What the retry executor does after one attempt, given how many
/// failures came before it.
#[derive(Clone, Copy, Debug, PartialEq, Eq, Structural)]
pub enum RetryDecision {
    /// The attempt succeeded; the operation is done.
    Succeeded,
    /// The attempt failed but retries remain: sleep this many
    /// milliseconds, then attempt again.
    SleepAndRetry(u64),
    /// The attempt failed and the policy is exhausted: surface the
    /// last error.
    Exhausted,
}

/// The executor's decision after an attempt with `failures` prior
/// failures: first success wins immediately; a failure is retried
/// after `spec_delay(policy, failures)` while retries remain.
pub open spec fn spec_retry_step(policy: Policy, failures: nat, succeeded: bool) -> RetryDecision {
    if succeeded {
        RetryDecision::Succeeded
    } else if failures < policy.max_retries {
        RetryDecision::SleepAndRetry(spec_delay(policy, failures) as u64)
    } else {
        RetryDecision::Exhausted
    }
}

/// Decides what follows one attempt: done, sleep and retry, or
/// exhausted. The caller performs the attempt and the sleep; this
/// function owns the policy logic.
pub fn retry_step(policy: &Policy, failures: u32, succeeded: bool) -> (d: RetryDecision)
    requires
        policy.wf(),
    ensures
        d == spec_retry_step(*policy, failures as nat, succeeded),
{
    if succeeded {
        RetryDecision::Succeeded
    } else if failures < policy.max_retries {
        RetryDecision::SleepAndRetry(compute_backoff(policy, failures))
    } else {
        RetryDecision::Exhausted
    }
}

/// Number of attempts the executor makes when attempt `i` has outcome
/// `outcomes[i]`: it stops at the first success, or after
/// `max_retries` retries have failed.
pub open spec fn spec_attempt_count(outcomes: Seq<bool>, max_retries: nat) -> nat
    decreases max_retries,
{
    if outcomes.len() == 0 || outcomes[0] || max_retries == 0 {
        1
    } else {
        1 + spec_attempt_count(outcomes.skip(1), (max_retries - 1) as nat)
    }
}

/// Whether the executor reaches a success before exhausting the policy.
pub open spec fn spec_run_succeeds(outcomes: Seq<bool>, max_retries: nat) -> bool
    decreases max_retries,
{
    if outcomes.len() == 0 {
        false
    } else if outcomes[0] {
        true
    } else if max_retries == 0 {
        false
    } else {
        spec_run_succeeds(outcomes.skip(1), (max_retries - 1) as nat)
    }
}

/// Total delay slept over the first `n` retries: the sum of
/// `spec_delay(policy, i)` for `i` in `0..n`.
pub open spec fn spec_total_delay(policy: Policy, n: nat) -> nat
    decreases n,
{
    if n == 0 {
        0
    } else {
        spec_total_delay(policy, (n - 1) as nat) + spec_delay(policy, (n - 1) as nat)
    }
}

/// No single delay exceeds the cap.
pub proof fn lemma_delay_le_cap(policy: Policy, k: nat)
    requires
        policy.wf(),
    ensures
        spec_delay(policy, k) <= policy.max_backoff,
{
    vstd::arithmetic::power::lemma_pow_positive(policy.backoff_factor as int, k);
}

/// The slept total over `n` retries never exceeds `n` caps.
pub proof fn lemma_total_delay_bound(policy: Policy, n: nat)
    requires
        policy.wf(),
    ensures
        spec_total_delay(policy, n) <= n * policy.max_backoff,
    decreases n,
{
    if n > 0 {
        lemma_total_delay_bound(policy, (n - 1) as nat);
        lemma_delay_le_cap(policy, (n - 1) as nat);
        assert((n - 1) * policy.max_backoff + policy.max_backoff == n * policy.max_backoff)
            by (nonlinear_arith);
    }
}

/// What one run of the retry executor did: how many attempts it made,
/// whether it ended in success, and how long it slept in total
/// (milliseconds).
#[derive(Clone, Copy, Debug, PartialEq, Eq, Structural)]
pub struct RetryOutcome {
    pub attempts: u64,
    pub succeeded: bool,
    pub total_delay: u128,
}

/// The retry executor's control loop, with the attempt outcomes
/// supplied: attempt `i` succeeds exactly when `outcomes[i]`. Returns
/// at the first success, or after `max_retries` failed retries, with
/// the attempt count and the exact total backoff slept.
pub fn execute_retries(policy: &Policy, outcomes: &Vec<bool>) -> (r: RetryOutcome)
    requires
        policy.wf(),
        outcomes.len() > policy.max_retries,
    ensures
        r.attempts == spec_attempt_count(outcomes@, policy.max_retries as nat),
        r.succeeded == spec_run_succeeds(outcomes@, policy.max_retries as nat),
        r.attempts >= 1,
        r.total_delay == spec_total_delay(*policy, (r.attempts - 1) as nat),
{
    let ghost mr: nat = policy.max_retries as nat;
    let mut failures: u32 = 0;
    let mut total: u128 = 0;
    proof {
        assert(outcomes@.skip(0) =~= outcomes@);
    }
    loop
        invariant
            policy.wf(),
            outcomes.len() > policy.max_retries,
            mr == policy.max_retries as nat,
            failures <= policy.max_retries,
            spec_attempt_count(outcomes@, mr)
                == failures + spec_attempt_count(outcomes@.skip(failures as int), (mr - failures) as nat),
            spec_run_succeeds(outcomes@, mr)
                == spec_run_succeeds(outcomes@.skip(failures as int), (mr - failures) as nat),
            total == spec_total_delay(*policy, failures as nat),
        decreases policy.max_retries - failures,
    {
        let ok = outcomes[failures as usize];
        proof {
            assert(outcomes@.skip(failures as int)[0] == outcomes@[failures as int]);
        }
        if ok {
            return RetryOutcome {
                attempts: failures as u64 + 1,
                succeeded: true,
                total_delay: total,
            };
        }
        if failures == policy.max_retries {
            return RetryOutcome {
                attempts: failures as u64 + 1,
                succeeded: false,
                total_delay: total,
            };
        }
        let wait = compute_backoff(policy, failures);
        proof {
            lemma_delay_le_cap(*policy, failures as nat);
            lemma_total_delay_bound(*policy, failures as nat);
            assert(total + wait <= u128::MAX) by (nonlinear_arith)
                requires
                    total <= (failures as nat) * policy.max_backoff,
                    wait <= policy.max_backoff,
                    failures <= u32::MAX,
                    policy.max_backoff <= u64::MAX;
            assert(outcomes@.skip(failures as int).skip(1) =~= outcomes@.skip(failures as int + 1));
        }
        total = total + wait as u128;
        failures = failures + 1;
    }
}

/// With `max_retries = 0` the executor makes exactly one attempt,
/// whatever its outcome.
pub proof fn lemma_zero_retries_single_attempt(outcomes: Seq<bool>)
    requires
        outcomes.len() > 0,
    ensures
        spec_attempt_count(outcomes, 0) == 1,
{
}

/// An operation that fails `n <= max_retries` times and then succeeds
/// is driven to success in exactly `n + 1` attempts; combined with the
/// contract of `execute_retries`, the total delay slept is then
/// `spec_total_delay(policy, n)`, the sum of the `n` backoffs.
pub proof fn lemma_eventual_success(outcomes: Seq<bool>, max_retries: nat, n: nat)
    requires
        n <= max_retries,
        outcomes.len() > max_retries,
        forall|i: int| 0 <= i < n ==> !outcomes[i],
        outcomes[n as int],
    ensures
        spec_attempt_count(outcomes, max_retries) == n + 1,
        spec_run_succeeds(outcomes, max_retries),
    decreases n,
{
    if n > 0 {
        assert(!outcomes[0]);
        assert(forall|i: int| 0 <= i < n - 1 ==> outcomes.skip(1)[i] == outcomes[i + 1]);
        lemma_eventual_success(outcomes.skip(1), (max_retries - 1) as nat, (n - 1) as nat);
    }
}

/// An operation that always fails exhausts the policy: exactly
/// `max_retries + 1` attempts, never fewer, never more, and no
/// success.
pub proof fn lemma_exhaustion(outcomes: Seq<bool>, max_retries: nat)
    requires
        outcomes.len() > max_retries,
        forall|i: int| 0 <= i <= max_retries ==> !outcomes[i],
    ensures
        spec_attempt_count(outcomes, max_retries) == max_retries + 1,
        !spec_run_succeeds(outcomes, max_retries),
    decreases max_retries,
{
    if max_retries > 0 {
        assert(forall|i: int| 0 <= i <= max_retries - 1 ==> outcomes.skip(1)[i] == outcomes[i + 1]);
        lemma_exhaustion(outcomes.skip(1), (max_retries - 1) as nat);
    }
}

/// Unfolds one step of the power: `unit * factor^(i+1) == (unit * factor^i) * factor`.
proof fn lemma_pow_step(policy: Policy, i: nat)
    requires
        policy.wf(),
    ensures
        policy.backoff_unit * pow(policy.backoff_factor as int, i + 1)
            == (policy.backoff_unit * pow(policy.backoff_factor as int, i))
                * policy.backoff_factor,
        policy.backoff_unit * pow(policy.backoff_factor as int, i) >= 0,
{
    vstd::arithmetic::power::lemma_pow_positive(policy.backoff_factor as int, i);
    assert(pow(policy.backoff_factor as int, i + 1)
        == policy.backoff_factor * pow(policy.backoff_factor as int, i)) by {
        vstd::arithmetic::power::lemma_pow1(policy.backoff_factor as int);
        vstd::arithmetic::power::lemma_pow_adds(policy.backoff_factor as int, 1, i);
    }
    assert(policy.backoff_unit * (policy.backoff_factor * pow(policy.backoff_factor as int, i))
        == (policy.backoff_unit * pow(policy.backoff_factor as int, i))
            * policy.backoff_factor) by (nonlinear_arith);
    assert(policy.backoff_unit * pow(policy.backoff_factor as int, i) >= 0) by (nonlinear_arith)
        requires pow(policy.backoff_factor as int, i) > 0, policy.backoff_unit >= 0;
}

} // verus!
