//! Exponential backoff with a circuit breaker for restarting failing work.
use vstd::arithmetic::power2::{lemma2_to64, lemma_pow2_pos, lemma_pow2_strictly_increases, pow2};
use vstd::prelude::*;

verus! {

/// Nanoseconds in one second.
pub const NANOS_PER_SEC: u128 = 1_000_000_000u128;

/// Nanoseconds in one millisecond.
pub const NANOS_PER_MILLI: u128 = 1_000_000u128;

/// The longest representable delay: `u64::MAX` seconds plus 999_999_999 nanoseconds,
/// the same range as a standard library duration.
pub const MAX_DELAY_NANOS: u128 = 18_446_744_073_709_551_615_999_999_999u128;

/// A span of time measured in nanoseconds, with the range of a standard duration.
#[derive(Clone, Copy, Debug, PartialEq, Eq, Structural)]
pub struct Delay {
    nanos: u128,
}

impl Delay {
    #[verifier::type_invariant]
    closed spec fn in_range(self) -> bool {
        self.nanos <= MAX_DELAY_NANOS
    }

    /// The length of the delay in nanoseconds.
    pub closed spec fn spec_nanos(self) -> nat {
        self.nanos as nat
    }

    pub fn from_secs(secs: u64) -> (d: Delay)
        ensures
            d.spec_nanos() == secs as nat * NANOS_PER_SEC,
    {
        assert(secs as u128 * NANOS_PER_SEC <= MAX_DELAY_NANOS) by (nonlinear_arith)
            requires
                secs <= u64::MAX,
        ;
        Delay { nanos: secs as u128 * NANOS_PER_SEC }
    }

    pub fn from_millis(millis: u64) -> (d: Delay)
        ensures
            d.spec_nanos() == millis as nat * NANOS_PER_MILLI,
    {
        assert(millis as u128 * NANOS_PER_MILLI <= MAX_DELAY_NANOS) by (nonlinear_arith)
            requires
                millis <= u64::MAX,
        ;
        Delay { nanos: millis as u128 * NANOS_PER_MILLI }
    }

    /// A delay of `secs` whole seconds plus `subsec_nanos` nanoseconds.
    pub fn new(secs: u64, subsec_nanos: u32) -> (d: Delay)
        requires
            subsec_nanos < NANOS_PER_SEC,
        ensures
            d.spec_nanos() == secs as nat * NANOS_PER_SEC + subsec_nanos as nat,
    {
        assert(secs as u128 * NANOS_PER_SEC + subsec_nanos as u128 <= MAX_DELAY_NANOS)
            by (nonlinear_arith)
            requires
                secs <= u64::MAX,
                subsec_nanos < NANOS_PER_SEC,
        ;
        Delay { nanos: secs as u128 * NANOS_PER_SEC + subsec_nanos as u128 }
    }

    pub fn as_nanos(&self) -> (n: u128)
        ensures
            n == self.spec_nanos(),
            n <= MAX_DELAY_NANOS,
    {
        proof {
            use_type_invariant(self);
        }
        self.nanos
    }

    /// Whole seconds in the delay.
    pub fn as_secs(&self) -> (s: u64)
        ensures
            s == self.spec_nanos() / (NANOS_PER_SEC as nat),
    {
        proof {
            use_type_invariant(self);
        }
        assert(self.nanos / NANOS_PER_SEC <= u64::MAX) by (nonlinear_arith)
            requires
                self.nanos <= MAX_DELAY_NANOS,
        ;
        (self.nanos / NANOS_PER_SEC) as u64
    }

    /// Nanoseconds beyond the whole seconds.
    pub fn subsec_nanos(&self) -> (n: u32)
        ensures
            n == self.spec_nanos() % (NANOS_PER_SEC as nat),
    {
        (self.nanos % NANOS_PER_SEC) as u32
    }

    /// The product of the delay and `factor`, or `None` when it leaves the representable range.
    pub fn checked_mul(&self, factor: u32) -> (r: Option<Delay>)
        ensures
            self.spec_nanos() * factor <= MAX_DELAY_NANOS ==> r is Some,
            self.spec_nanos() * factor > MAX_DELAY_NANOS ==> r is None,
            r matches Some(d) ==> d.spec_nanos() == self.spec_nanos() * factor,
    {
        proof {
            use_type_invariant(self);
        }
        assert(self.nanos * (factor as u128) <= MAX_DELAY_NANOS * 0x1_0000_0000u128)
            by (nonlinear_arith)
            requires
                self.nanos <= MAX_DELAY_NANOS,
                factor <= u32::MAX,
        ;
        let product = self.nanos * (factor as u128);
        if product <= MAX_DELAY_NANOS {
            Some(Delay { nanos: product })
        } else {
            None
        }
    }

    /// The shorter of the two delays.
    pub fn min(self, other: Delay) -> (r: Delay)
        ensures
            r.spec_nanos() == if self.spec_nanos() <= other.spec_nanos() {
                self.spec_nanos()
            } else {
                other.spec_nanos()
            },
            r == self || r == other,
    {
        if self.nanos <= other.nanos {
            self
        } else {
            other
        }
    }
}

/// How long to wait after each consecutive failure, and when to stop trying.
#[derive(Debug, Clone, Copy, PartialEq, Eq, Structural)]
pub struct BackoffPolicy {
    pub initial_delay: Delay,
    pub max_delay: Delay,
    pub circuit_open_after: u32,
}

impl BackoffPolicy {
    /// A policy; a threshold below one is raised to one.
    pub fn new(initial_delay: Delay, max_delay: Delay, circuit_open_after: u32) -> (p: Self)
        ensures
            p.initial_delay == initial_delay,
            p.max_delay == max_delay,
            p.circuit_open_after == if circuit_open_after < 1 {
                1
            } else {
                circuit_open_after
            },
    {
        BackoffPolicy {
            initial_delay,
            max_delay,
            circuit_open_after: if circuit_open_after < 1 {
                1
            } else {
                circuit_open_after
            },
        }
    }
}

impl Default for BackoffPolicy {
    fn default() -> (p: Self)
        ensures
            p.initial_delay.spec_nanos() == NANOS_PER_SEC,
            p.max_delay.spec_nanos() == 60 * NANOS_PER_SEC,
            p.circuit_open_after == 6,
    {
        BackoffPolicy::new(Delay::from_secs(1), Delay::from_secs(60), 6)
    }
}

/// What the supervisor decided after a failure.
#[derive(Debug, Clone, Copy, PartialEq, Eq, Structural)]
pub struct FailureDecision {
    pub consecutive_failures: u32,
    pub delay: Delay,
    pub circuit_open: bool,
}

/// Counts consecutive failures and turns them into backoff decisions.
#[derive(Debug, Clone, Copy)]
pub struct BackoffSupervisor {
    policy: BackoffPolicy,
    consecutive_failures: u32,
}

/// The exponent used for the `failures`-th consecutive failure: one less than the count,
/// capped at 16.
pub open spec fn backoff_exponent(failures: nat) -> nat {
    if failures == 0 {
        0
    } else if failures - 1 <= 16 {
        (failures - 1) as nat
    } else {
        16
    }
}

/// The delay, in nanoseconds, after the `failures`-th consecutive failure: the initial delay
/// doubled once per earlier failure (at most 16 times), capped at the maximum delay.
pub open spec fn backoff_delay_nanos(policy: BackoffPolicy, failures: nat) -> nat {
    let raw = policy.initial_delay.spec_nanos() * pow2(backoff_exponent(failures));
    if raw <= policy.max_delay.spec_nanos() {
        raw
    } else {
        policy.max_delay.spec_nanos()
    }
}

/// One more failure, counted with saturation at `u32::MAX`.
pub open spec fn next_failure_count(failures: u32) -> u32 {
    if failures == u32::MAX {
        u32::MAX
    } else {
        (failures + 1) as u32
    }
}

impl BackoffSupervisor {
    pub closed spec fn spec_policy(&self) -> BackoffPolicy {
        self.policy
    }

    pub closed spec fn spec_failures(&self) -> u32 {
        self.consecutive_failures
    }

    pub fn new(policy: BackoffPolicy) -> (s: Self)
        ensures
            s.spec_policy() == policy,
            s.spec_failures() == 0,
    {
        BackoffSupervisor { policy, consecutive_failures: 0 }
    }

    /// A success resets the failure count.
    pub fn record_success(&mut self)
        ensures
            final(self).spec_failures() == 0,
            final(self).spec_failures() == failure_count_after(old(self).spec_failures(), seq![true]),
            final(self).spec_policy() == old(self).spec_policy(),
    {
        proof {
            assert(seq![true].last());
        }
        self.consecutive_failures = 0;
    }

    /// Counts a failure and says how long to wait and whether the circuit is now open.
    pub fn record_failure(&mut self) -> (d: FailureDecision)
        ensures
            final(self).spec_policy() == old(self).spec_policy(),
            final(self).spec_failures() == next_failure_count(old(self).spec_failures()),
            final(self).spec_failures() == failure_count_after(old(self).spec_failures(), seq![false]),
            d.consecutive_failures == final(self).spec_failures(),
            d.delay.spec_nanos() == backoff_delay_nanos(
                old(self).spec_policy(),
                final(self).spec_failures() as nat,
            ),
            d.circuit_open == (final(self).spec_failures()
                >= old(self).spec_policy().circuit_open_after),
    {
        self.consecutive_failures =
            if self.consecutive_failures == u32::MAX {
                u32::MAX
            } else {
                self.consecutive_failures + 1
            };
        let failures = self.consecutive_failures;
        proof {
            let start = old(self).consecutive_failures;
            assert(seq![false].drop_last() =~= Seq::<bool>::empty());
            assert(failure_count_after(start, Seq::<bool>::empty()) == start);
            assert(!seq![false].last());
        }
        let shift: u32 = if failures - 1 <= 16 {
            failures - 1
        } else {
            16
        };
        proof {
            lemma2_to64();
            lemma_pow2_pos(shift as nat);
            if shift < 16 {
                lemma_pow2_strictly_increases(shift as nat, 16);
            }
            vstd::bits::lemma_u32_shl_is_mul(1, shift);
        }
        let multiplier: u32 = 1u32 << shift;
        assert(multiplier == pow2(backoff_exponent(failures as nat)));
        let initial = self.policy.initial_delay;
        let max = self.policy.max_delay;
        proof {
            use_type_invariant(&max);
        }
        let delay = match initial.checked_mul(multiplier) {
            Some(product) => product,
            None => max,
        }.min(max);
        FailureDecision {
            consecutive_failures: failures,
            delay,
            circuit_open: failures >= self.policy.circuit_open_after,
        }
    }

    pub fn consecutive_failures(&self) -> (n: u32)
        ensures
            n == self.spec_failures(),
    {
        self.consecutive_failures
    }
}

impl Default for BackoffSupervisor {
    fn default() -> (s: Self)
        ensures
            s.spec_failures() == 0,
            s.spec_policy().initial_delay.spec_nanos() == NANOS_PER_SEC,
            s.spec_policy().max_delay.spec_nanos() == 60 * NANOS_PER_SEC,
            s.spec_policy().circuit_open_after == 6,
    {
        BackoffSupervisor::new(BackoffPolicy::default())
    }
}

/// The failure count after a run of outcomes (`true` a success, `false` a failure) starting
/// from `start`, as `record_success` and `record_failure` keep it.
pub open spec fn failure_count_after(start: u32, outcomes: Seq<bool>) -> u32
    decreases outcomes.len(),
{
    if outcomes.len() == 0 {
        start
    } else if outcomes.last() {
        0
    } else {
        next_failure_count(failure_count_after(start, outcomes.drop_last()))
    }
}

/// The number of failures after the last success in a run of outcomes (all of them when
/// there is no success).
pub open spec fn failures_since_success(outcomes: Seq<bool>) -> nat
    decreases outcomes.len(),
{
    if outcomes.len() == 0 {
        0
    } else if outcomes.last() {
        0
    } else {
        failures_since_success(outcomes.drop_last()) + 1
    }
}

/// A fresh supervisor's failure count is the number of failures since the last success, as
/// long as that number fits below `u32::MAX`.
pub proof fn law_failure_count_is_failures_since_success(outcomes: Seq<bool>)
    requires
        failures_since_success(outcomes) < u32::MAX,
    ensures
        failure_count_after(0, outcomes) == failures_since_success(outcomes),
    decreases outcomes.len(),
{
    if outcomes.len() > 0 && !outcomes.last() {
        law_failure_count_is_failures_since_success(outcomes.drop_last());
    }
}

/// Recording outcomes in two runs, one after the other, leaves the same failure count as
/// recording them in one run: so a supervisor's count after any sequence of
/// `record_success` and `record_failure` calls is `failure_count_after` of its starting
/// count and the whole sequence.
pub proof fn law_recorded_runs_compose(start: u32, first: Seq<bool>, then: Seq<bool>)
    ensures
        failure_count_after(failure_count_after(start, first), then) == failure_count_after(
            start,
            first + then,
        ),
    decreases then.len(),
{
    if then.len() == 0 {
        assert(first + then =~= first);
    } else {
        law_recorded_runs_compose(start, first, then.drop_last());
        assert((first + then).drop_last() =~= first + then.drop_last());
        assert((first + then).last() == then.last());
    }
}

/// From a fresh supervisor, after any sequence of calls whose outcomes are `history`
/// followed by one more call, the failure count is the number of failures since the last
/// success, as long as that number fits below `u32::MAX`.
pub proof fn law_failures_since_success_after_calls(history: Seq<bool>, next: bool)
    requires
        failures_since_success(history.push(next)) < u32::MAX,
    ensures
        failure_count_after(failure_count_after(0, history), seq![next])
            == failures_since_success(history.push(next)),
{
    law_recorded_runs_compose(0, history, seq![next]);
    assert(history + seq![next] =~= history.push(next));
    law_failure_count_is_failures_since_success(history.push(next));
}

/// The delay never exceeds the policy's maximum delay.
pub proof fn law_delay_never_exceeds_max(policy: BackoffPolicy, failures: nat)
    ensures
        backoff_delay_nanos(policy, failures) <= policy.max_delay.spec_nanos(),
{
}

/// The delay never shrinks as consecutive failures accumulate.
pub proof fn law_delay_is_monotone(policy: BackoffPolicy, fewer: nat, more: nat)
    requires
        fewer <= more,
    ensures
        backoff_delay_nanos(policy, fewer) <= backoff_delay_nanos(policy, more),
{
    let e1 = backoff_exponent(fewer);
    let e2 = backoff_exponent(more);
    assert(e1 <= e2);
    if e1 < e2 {
        lemma_pow2_strictly_increases(e1, e2);
    }
    let i = policy.initial_delay.spec_nanos();
    assert(i * pow2(e1) <= i * pow2(e2)) by (nonlinear_arith)
        requires
            pow2(e1) <= pow2(e2),
    ;
}

/// The first failure after a success (or from the start) waits exactly the initial delay,
/// capped at the maximum.
pub proof fn law_first_failure_waits_initial_delay(policy: BackoffPolicy)
    ensures
        backoff_delay_nanos(policy, 1) == if policy.initial_delay.spec_nanos()
            <= policy.max_delay.spec_nanos() {
            policy.initial_delay.spec_nanos()
        } else {
            policy.max_delay.spec_nanos()
        },
{
    lemma2_to64();
    assert(backoff_exponent(1) == 0);
    let i = policy.initial_delay.spec_nanos();
    assert(i * pow2(0) == i);
}

/// Each further failure doubles the delay until the cap or the sixteenth doubling.
pub proof fn law_delay_doubles(policy: BackoffPolicy, failures: nat)
    requires
        1 <= failures <= 16,
    ensures
        backoff_delay_nanos(policy, failures + 1) == if 2 * policy.initial_delay.spec_nanos()
            * pow2((failures - 1) as nat) <= policy.max_delay.spec_nanos() {
            2 * policy.initial_delay.spec_nanos() * pow2((failures - 1) as nat)
        } else {
            policy.max_delay.spec_nanos()
        },
{
    vstd::arithmetic::power2::lemma_pow2_unfold(failures);
    let i = policy.initial_delay.spec_nanos();
    let p = pow2((failures - 1) as nat);
    assert(i * (2 * p) == 2 * i * p) by (nonlinear_arith);
}

/// Once the circuit is open, further failures keep it open.
pub proof fn law_circuit_stays_open(policy: BackoffPolicy, failures: u32)
    requires
        failures >= policy.circuit_open_after,
    ensures
        next_failure_count(failures) >= policy.circuit_open_after,
{
}

} // verus!
