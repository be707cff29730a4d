//! How often a tool call is attempted, and how long it pauses in between.

use vstd::arithmetic::div_mod::lemma_div_denominator;
use vstd::arithmetic::mul::{lemma_mul_inequality, lemma_mul_is_associative};
use vstd::arithmetic::power2::{
    lemma2_to64, lemma_pow2_pos, lemma_pow2_strictly_increases, lemma_pow2_unfold, pow2,
};
use vstd::prelude::*;

verus! {

/// One millisecond, in nanoseconds.
pub const MILLISECOND: u128 = 1_000_000;

/// The longest pause: the longest `std::time::Duration`, in nanoseconds.
pub const LONGEST_PAUSE: u128 = 18_446_744_073_709_551_615_999_999_999;

/// The multiplier 1.0.
pub const ONE: u32 = 0x3f80_0000;

/// The multiplier 2.0.
pub const TWO: u32 = 0x4000_0000;

/// Retry policy applied to a tool call.
///
/// `max_attempts = 1` means no retry (try once, fail or succeed). `>= 2`
/// enables retry with exponential backoff. `timeout` is applied per attempt;
/// the total wallclock can exceed it by up to
/// `(max_attempts - 1) * max_backoff`.
///
/// Lengths of time are in nanoseconds.
#[derive(Debug, Clone, Copy)]
pub struct RetryPolicy {
    pub max_attempts: u32,
    pub initial_backoff: u128,
    pub max_backoff: u128,
    /// An IEEE 754 single-precision number, by its bits.
    pub backoff_multiplier: u32,
    pub timeout: Option<u128>,
}

/// `n` times two to the power of `exponent`, rounded down.
pub open spec fn shifted(n: nat, exponent: int) -> nat {
    if exponent >= 0 {
        n * pow2(exponent as nat)
    } else {
        n / pow2((-exponent) as nat)
    }
}

/// A length of time multiplied by a single-precision number, rounded down;
/// `None` where that is infinite. What is negative or not a number counts as
/// zero.
pub open spec fn scaled(ns: nat, multiplier: u32) -> Option<nat> {
    let exponent = multiplier as nat / 0x80_0000 % 256;
    let fraction = multiplier as nat % 0x80_0000;
    if multiplier >= 0x8000_0000 || ns == 0 || (exponent == 255 && fraction != 0) {
        Some(0)
    } else if exponent == 255 {
        None
    } else if exponent == 0 {
        Some(shifted(ns * fraction, -149))
    } else {
        Some(shifted(ns * (fraction + 0x80_0000), exponent - 150))
    }
}

/// The smaller of two numbers.
pub open spec fn at_most(bound: u128, n: nat) -> u128 {
    if n <= bound {
        n as u128
    } else {
        bound
    }
}

impl RetryPolicy {
    /// The bound of every pause.
    pub open spec fn pause_cap(self) -> u128 {
        at_most(LONGEST_PAUSE, self.max_backoff as nat)
    }

    /// The pause that follows a pause.
    pub open spec fn pause_after(self, pause: u128) -> u128 {
        match scaled(pause as nat, self.backoff_multiplier) {
            Some(ns) => at_most(self.pause_cap(), ns),
            None => self.pause_cap(),
        }
    }

    /// The pause between the failed attempt of this number, from one, and the
    /// next: the initial backoff at first, then each time the last pause times
    /// the multiplier, always up to the maximum.
    pub open spec fn backoff(self, attempt: nat) -> u128
        decreases attempt,
    {
        if attempt <= 1 {
            at_most(self.pause_cap(), self.initial_backoff as nat)
        } else {
            self.pause_after(self.backoff((attempt - 1) as nat))
        }
    }

    /// All pauses up to and with the one after the attempt of this number.
    pub open spec fn total_backoff(self, attempt: nat) -> int
        decreases attempt,
    {
        if attempt == 0 {
            0
        } else {
            self.total_backoff((attempt - 1) as nat) + self.backoff(attempt)
        }
    }

    /// Try once, no retry. The default.
    pub fn none() -> (policy: Self)
        ensures
            policy == (RetryPolicy {
                max_attempts: 1,
                initial_backoff: 0,
                max_backoff: 0,
                backoff_multiplier: ONE,
                timeout: None,
            }),
            policy.backoff_multiplier == 0x3f80_0000,
    {
        RetryPolicy {
            max_attempts: 1,
            initial_backoff: 0,
            max_backoff: 0,
            backoff_multiplier: ONE,
            timeout: None,
        }
    }

    /// Three attempts with exponential backoff starting at 100ms, capped at
    /// 5s. A sensible default for flaky external APIs.
    pub fn exponential_3() -> (policy: Self)
        ensures
            policy.max_attempts == 3,
            policy.initial_backoff == 100 * MILLISECOND,
            policy.max_backoff == 5_000 * MILLISECOND,
            policy.backoff_multiplier == TWO,
            policy.timeout is None,
            policy.initial_backoff == 100_000_000,
            policy.max_backoff == 5_000_000_000,
            policy.backoff_multiplier == 0x4000_0000,
    {
        RetryPolicy {
            max_attempts: 3,
            initial_backoff: 100 * MILLISECOND,
            max_backoff: 5_000 * MILLISECOND,
            backoff_multiplier: TWO,
            timeout: None,
        }
    }

    pub fn with_timeout(self, timeout: u128) -> (policy: Self)
        ensures
            policy == (RetryPolicy { timeout: Some(timeout), ..self }),
    {
        RetryPolicy { timeout: Some(timeout), ..self }
    }

    pub fn with_max_attempts(self, max_attempts: u32) -> (policy: Self)
        ensures
            policy == (RetryPolicy { max_attempts, ..self }),
    {
        RetryPolicy { max_attempts, ..self }
    }

    /// The pause after the first failed attempt.
    pub fn first_backoff(&self) -> (pause: u128)
        ensures
            pause == self.backoff(1),
            pause <= LONGEST_PAUSE,
    {
        let cap: u128 = self.cap();
        if self.initial_backoff <= cap {
            self.initial_backoff
        } else {
            cap
        }
    }

    /// The pause that follows a pause.
    pub fn next_backoff(&self, pause: u128) -> (longer: u128)
        requires
            pause <= LONGEST_PAUSE,
        ensures
            longer == self.pause_after(pause),
            longer <= LONGEST_PAUSE,
    {
        let cap: u128 = self.cap();
        let multiplier: u32 = self.backoff_multiplier;
        let exponent: u32 = multiplier / 0x80_0000 % 256;
        let fraction: u32 = multiplier % 0x80_0000;
        if multiplier >= 0x8000_0000 || pause == 0 || (exponent == 255 && fraction != 0) {
            0
        } else if exponent == 255 {
            cap
        } else if exponent == 0 {
            let product: u128 = multiplied(pause, fraction);
            shift(product, -149, cap)
        } else {
            let product: u128 = multiplied(pause, fraction + 0x80_0000);
            shift(product, exponent as i32 - 150, cap)
        }
    }

    fn cap(&self) -> (cap: u128)
        ensures
            cap == self.pause_cap(),
    {
        if self.max_backoff <= LONGEST_PAUSE {
            self.max_backoff
        } else {
            LONGEST_PAUSE
        }
    }
}

impl Default for RetryPolicy {
    fn default() -> (policy: Self)
        ensures
            policy == (RetryPolicy {
                max_attempts: 1,
                initial_backoff: 0,
                max_backoff: 0,
                backoff_multiplier: ONE,
                timeout: None,
            }),
    {
        RetryPolicy::none()
    }
}

fn multiplied(pause: u128, factor: u32) -> (product: u128)
    requires
        pause <= LONGEST_PAUSE,
        factor < 0x100_0000,
    ensures
        product == pause * factor,
{
    assert(pause * factor <= LONGEST_PAUSE * 0x100_0000) by (nonlinear_arith)
        requires
            pause <= LONGEST_PAUSE,
            factor < 0x100_0000,
    ;
    pause * factor as u128
}

/// `n` times two to the power of `exponent`, rounded down, and at most `cap`.
fn shift(n: u128, exponent: i32, cap: u128) -> (out: u128)
    requires
        -149 <= exponent <= 104,
        cap <= LONGEST_PAUSE,
    ensures
        out == at_most(cap, shifted(n as nat, exponent as int)),
{
    let mut value: u128 = n;
    if exponent >= 0 {
        let mut left: i32 = exponent;
        assert(value * pow2(left as nat) == shifted(n as nat, exponent as int));
        while left > 0
            invariant
                0 <= left <= exponent,
                cap <= LONGEST_PAUSE,
                value * pow2(left as nat) == shifted(n as nat, exponent as int),
            decreases left,
        {
            proof {
                lemma_pow2_unfold(left as nat);
                lemma_mul_is_associative(value as int, 2, pow2((left - 1) as nat) as int);
                lemma_pow2_pos(left as nat);
                let power = pow2(left as nat) as int;
                assert(value * power >= value) by (nonlinear_arith)
                    requires
                        power >= 1,
                        value >= 0,
                ;
            }
            if value > cap {
                return cap;
            }
            value = value * 2;
            left = left - 1;
        }
        proof {
            lemma2_to64();
        }
    } else {
        let mut left: i32 = -exponent;
        proof {
            lemma2_to64();
            assert(n as int / 1 == n);
        }
        while left > 0
            invariant
                0 <= left <= -exponent,
                -149 <= exponent < 0,
                value as int == n as int / pow2((-exponent - left) as nat) as int,
            decreases left,
        {
            proof {
                let done = (-exponent - left) as nat;
                lemma_pow2_unfold(done + 1);
                lemma_pow2_pos(done);
                lemma_div_denominator(n as int, pow2(done) as int, 2);
                assert(pow2(done) * 2 == pow2(done + 1));
            }
            value = value / 2;
            left = left - 1;
        }
    }
    if value <= cap {
        value
    } else {
        cap
    }
}

// ---------------------------------------------------------------------------
// Laws
// ---------------------------------------------------------------------------

/// No pause is longer than the maximum.
pub proof fn law_backoff_is_bounded(policy: RetryPolicy, attempt: nat)
    ensures
        policy.backoff(attempt) <= policy.max_backoff,
        policy.backoff(attempt) <= LONGEST_PAUSE,
    decreases attempt,
{
    if attempt > 1 {
        law_backoff_is_bounded(policy, (attempt - 1) as nat);
    }
}

/// All the pauses of a call that is attempted `max_attempts` times together
/// take at most `(max_attempts - 1) * max_backoff`.
pub proof fn law_pauses_add_at_most_the_maximum_each(policy: RetryPolicy, attempts: nat)
    requires
        1 <= attempts <= policy.max_attempts,
    ensures
        policy.total_backoff((attempts - 1) as nat) <= (policy.max_attempts - 1)
            * policy.max_backoff,
    decreases attempts,
{
    lemma_total_backoff(policy, (attempts - 1) as nat);
    lemma_mul_inequality(attempts - 1, policy.max_attempts - 1, policy.max_backoff as int);
}

proof fn lemma_total_backoff(policy: RetryPolicy, pauses: nat)
    ensures
        policy.total_backoff(pauses) <= pauses * policy.max_backoff,
    decreases pauses,
{
    if pauses > 0 {
        lemma_total_backoff(policy, (pauses - 1) as nat);
        law_backoff_is_bounded(policy, pauses);
        let max = policy.max_backoff as int;
        let n = pauses as int;
        assert((n - 1) * max + max == n * max) by (nonlinear_arith);
    }
}

/// With a multiplier of at least one, a pause is never shorter than the one
/// before.
pub proof fn law_backoff_never_shrinks(policy: RetryPolicy, attempt: nat)
    requires
        ONE <= policy.backoff_multiplier <= 0x7f80_0000,
    ensures
        policy.backoff(attempt) <= policy.backoff(attempt + 1),
{
    let pause = policy.backoff(attempt);
    law_backoff_is_bounded(policy, attempt);
    let multiplier = policy.backoff_multiplier as int;
    let exponent = multiplier / 0x80_0000 % 256;
    let fraction = multiplier % 0x80_0000;
    assert(127 <= exponent <= 255);
    if attempt >= 1 && pause > 0 && exponent < 255 {
        let factor = fraction + 0x80_0000;
        let product = pause * factor;
        let shift = exponent - 150;
        assert(product >= pause * 0x80_0000) by (nonlinear_arith)
            requires
                product == pause * factor,
                factor >= 0x80_0000,
                pause >= 0,
        ;
        if shift >= 0 {
            lemma_pow2_pos(shift as nat);
            let power = pow2(shift as nat) as int;
            assert(product * power >= pause) by (nonlinear_arith)
                requires
                    product >= pause * 0x80_0000,
                    pause >= 0,
                    power >= 1,
            ;
        } else {
            let power = pow2((-shift) as nat) as int;
            lemma_pow2_pos((-shift) as nat);
            lemma2_to64();
            if -shift < 23 {
                lemma_pow2_strictly_increases((-shift) as nat, 23);
            }
            assert(power <= 0x80_0000);
            assert(product / power >= pause) by (nonlinear_arith)
                requires
                    product >= pause * 0x80_0000,
                    0 < power <= 0x80_0000,
                    pause >= 0,
            ;
        }
    }
}

/// With the multiplier 2.0 each pause is twice the one before, up to the
/// maximum.
pub proof fn law_backoff_doubles(policy: RetryPolicy, attempt: nat)
    requires
        policy.backoff_multiplier == TWO,
        attempt >= 1,
    ensures
        policy.backoff(attempt + 1) == at_most(
            policy.pause_cap(),
            (2 * policy.backoff(attempt)) as nat,
        ),
{
    let pause = policy.backoff(attempt);
    lemma2_to64();
    assert(TWO as int / 0x80_0000 % 256 == 128);
    assert(TWO as int % 0x80_0000 == 0);
    assert(pow2(22) == 0x40_0000);
    assert((pause * 0x80_0000) / 0x40_0000 == 2 * pause);
}

/// The first pause is the initial backoff, or the maximum where that is shorter;
/// and none is longer than a `std::time::Duration` can be.
pub proof fn law_first_pause_is_the_initial_backoff(policy: RetryPolicy)
    ensures
        policy.initial_backoff <= policy.max_backoff && policy.initial_backoff
            <= 18_446_744_073_709_551_615_999_999_999 ==> policy.backoff(1)
            == policy.initial_backoff,
        policy.max_backoff <= policy.initial_backoff && policy.max_backoff
            <= 18_446_744_073_709_551_615_999_999_999 ==> policy.backoff(1) == policy.max_backoff,
        policy.initial_backoff >= 18_446_744_073_709_551_615_999_999_999 && policy.max_backoff
            >= 18_446_744_073_709_551_615_999_999_999 ==> policy.backoff(1)
            == 18_446_744_073_709_551_615_999_999_999,
{
}

/// The pause that follows a pause is that one times the multiplier, to the nanosecond
/// below, or the longest that is allowed where the product reaches that. Here the
/// multiplier is the single-precision number of exponent `e` and fraction `f`:
/// `0x80_0000 + f` times two to the power of `e - 150`.
pub proof fn law_next_pause_is_the_product(policy: RetryPolicy, pause: u128, e: int, f: int)
    requires
        1 <= e <= 254,
        0 <= f < 0x80_0000,
        policy.backoff_multiplier == e * 0x80_0000 + f,
    ensures
        ({
            let next = policy.pause_after(pause);
            let cap = if policy.max_backoff <= 18_446_744_073_709_551_615_999_999_999 {
                policy.max_backoff as int
            } else {
                18_446_744_073_709_551_615_999_999_999
            };
            let product = pause * (0x80_0000 + f);
            &&& 0 <= next <= cap
            &&& e >= 150 ==> {
                let exact = product * pow2((e - 150) as nat);
                next == if exact <= cap {
                    exact
                } else {
                    cap
                }
            }
            &&& e < 150 ==> {
                let unit = pow2((150 - e) as nat);
                ||| next * unit <= product < (next + 1) * unit
                ||| next == cap && cap * unit <= product
            }
        }),
{
    let next = policy.pause_after(pause);
    let multiplier = policy.backoff_multiplier as int;
    assert(multiplier / 0x80_0000 == e && multiplier % 0x80_0000 == f);
    let product = pause * (0x80_0000 + f);
    assert(product >= 0) by (nonlinear_arith)
        requires
            product == pause * (0x80_0000 + f),
            pause >= 0,
            f >= 0,
    ;
    assert(product == pause * (f + 0x80_0000));
    if e < 150 {
        let unit = pow2((150 - e) as nat) as int;
        lemma_pow2_pos((150 - e) as nat);
        if pause == 0 {
            assert(product == 0) by (nonlinear_arith)
                requires
                    product == pause * (0x80_0000 + f),
                    pause == 0,
            ;
            assert(next * unit == 0 && (next + 1) * unit == unit) by (nonlinear_arith)
                requires
                    next == 0,
            ;
        } else {
            lemma_floor(product, unit, policy.pause_cap() as int);
        }
    } else {
        let power = pow2((e - 150) as nat) as int;
        if pause == 0 {
            assert(product == 0) by (nonlinear_arith)
                requires
                    product == pause * (0x80_0000 + f),
                    pause == 0,
            ;
            assert(product * power == 0) by (nonlinear_arith)
                requires
                    product == 0,
            ;
        }
    }
}

proof fn lemma_floor(n: int, unit: int, cap: int)
    requires
        n >= 0,
        unit > 0,
        cap >= 0,
    ensures
        n / unit <= cap ==> (n / unit) * unit <= n < (n / unit + 1) * unit,
        n / unit > cap ==> cap * unit <= n,
{
    assert((n / unit) * unit <= n < (n / unit + 1) * unit) by (nonlinear_arith)
        requires
            n >= 0,
            unit > 0,
    ;
    let whole = n / unit;
    if whole > cap {
        assert(cap * unit <= whole * unit) by (nonlinear_arith)
            requires
                whole > cap,
                unit > 0,
        ;
    }
}

/// A multiplier below the normal numbers gives the product as well; an infinite
/// one gives the longest pause after any pause; a negative one, and what is not a
/// number, gives none.
pub proof fn law_next_pause_of_other_multipliers(policy: RetryPolicy, pause: u128)
    ensures
        ({
            let next = policy.pause_after(pause);
            let cap = if policy.max_backoff <= 18_446_744_073_709_551_615_999_999_999 {
                policy.max_backoff as int
            } else {
                18_446_744_073_709_551_615_999_999_999
            };
            let multiplier = policy.backoff_multiplier;
            &&& multiplier < 0x80_0000 ==> {
                let product = pause * multiplier;
                let unit = pow2(149);
                ||| next * unit <= product < (next + 1) * unit
                ||| next == cap && cap * unit <= product
            }
            &&& multiplier == 0x7f80_0000 ==> next == if pause > 0 {
                cap
            } else {
                0
            }
            &&& multiplier > 0x7f80_0000 ==> next == 0
        }),
{
    let multiplier = policy.backoff_multiplier;
    lemma_pow2_pos(149);
    let unit = pow2(149) as int;
    let product = pause * multiplier;
    if multiplier < 0x80_0000 {
        assert(multiplier as int / 0x80_0000 == 0 && multiplier as int % 0x80_0000 == multiplier);
        assert(product >= 0) by (nonlinear_arith)
            requires
                product == pause * multiplier,
                pause >= 0,
                multiplier >= 0,
        ;
        if pause == 0 {
            assert(product == 0) by (nonlinear_arith)
                requires
                    product == pause * multiplier,
                    pause == 0,
            ;
            let next = policy.pause_after(pause);
            assert(next * unit == 0 && (next + 1) * unit == unit) by (nonlinear_arith)
                requires
                    next == 0,
            ;
        } else {
            lemma_floor(product, unit, policy.pause_cap() as int);
        }
    }
}

/// Each pause follows from the one before in the same way, however many there
/// were.
pub proof fn law_pauses_follow_each_other(policy: RetryPolicy, attempt: nat)
    requires
        attempt >= 1,
    ensures
        policy.backoff(attempt + 1) == policy.pause_after(policy.backoff(attempt)),
{
}

} // verus!
