//! Retry policy with capped exponential backoff, and the decision taken after each failed
//! attempt. Durations are counted in nanoseconds.
use crate::text::{chars_of, is_ascii_digit_spec, trim, trim_seq};
use vstd::prelude::*;

verus! {

/// The largest duration std can hold (`Duration::MAX`), in nanoseconds.
pub const DURATION_MAX_NANOS: u128 = 18446744073709551615999999999u128;

pub const NANOS_PER_MILLI: u128 = 1000000u128;

/// How often and how patiently an operation is retried.
#[derive(Clone, Copy, Debug, PartialEq, Eq)]
pub struct RetryPolicy {
    max_attempts: usize,
    initial_delay_nanos: u128,
    max_delay_nanos: u128,
}

/// 2 to the power `e`.
pub open spec fn pow2_spec(e: nat) -> nat
    decreases e,
{
    if e == 0 {
        1
    } else {
        2 * pow2_spec((e - 1) as nat)
    }
}

pub open spec fn min_int(a: int, b: int) -> int {
    if a <= b {
        a
    } else {
        b
    }
}

/// The wait before retrying after failed attempt number `attempt`: the initial delay doubled
/// once per earlier failure (at most 31 times), never more than the maximum delay.
pub open spec fn backoff_delay(initial: nat, max: nat, attempt: nat) -> nat {
    let exponent = min_int(if attempt == 0 {
        0
    } else {
        attempt - 1
    }, 31);
    min_int(min_int((initial * pow2_spec(exponent as nat)) as int, DURATION_MAX_NANOS as int), max as int) as nat
}

/// What a failed attempt asks of the retry loop.
#[derive(Debug, Clone, PartialEq, Eq)]
pub enum RetryDirective<E> {
    Fail(E),
    Retry(E),
    RetryAfter { error: E, delay_nanos: u128 },
}

impl<E> RetryDirective<E> {
    pub fn fail(error: E) -> (r: Self)
        ensures
            r == RetryDirective::Fail(error),
    {
        RetryDirective::Fail(error)
    }

    pub fn retry(error: E) -> (r: Self)
        ensures
            r == RetryDirective::Retry(error),
    {
        RetryDirective::Retry(error)
    }

    pub fn retry_after(error: E, delay_nanos: u128) -> (r: Self)
        ensures
            r == (RetryDirective::RetryAfter { error, delay_nanos }),
    {
        RetryDirective::RetryAfter { error, delay_nanos }
    }
}

/// What the retry loop does after a failed attempt.
#[derive(Debug, Clone, PartialEq, Eq)]
pub enum RetryStep<E> {
    /// Give up and report the error.
    Stop(E),
    /// Sleep for this many nanoseconds, then make the next attempt.
    WaitThenRetry(u128),
}

impl RetryPolicy {
    pub closed spec fn max_attempts_spec(self) -> nat {
        self.max_attempts as nat
    }

    pub closed spec fn initial_delay_spec(self) -> nat {
        self.initial_delay_nanos as nat
    }

    pub closed spec fn max_delay_spec(self) -> nat {
        self.max_delay_nanos as nat
    }

    /// Durations are those std can represent.
    pub closed spec fn wf(self) -> bool {
        &&& self.max_attempts >= 1
        &&& self.initial_delay_nanos <= DURATION_MAX_NANOS
        &&& self.max_delay_nanos <= DURATION_MAX_NANOS
    }

    /// A policy; zero attempts is taken as one.
    pub fn new(max_attempts: usize, initial_delay_nanos: u128, max_delay_nanos: u128) -> (r: Self)
        requires
            initial_delay_nanos <= DURATION_MAX_NANOS,
            max_delay_nanos <= DURATION_MAX_NANOS,
        ensures
            r.wf(),
            r.max_attempts_spec() == if max_attempts == 0 {
                1
            } else {
                max_attempts as nat
            },
            r.initial_delay_spec() == initial_delay_nanos,
            r.max_delay_spec() == max_delay_nanos,
    {
        RetryPolicy {
            max_attempts: if max_attempts == 0 {
                1
            } else {
                max_attempts
            },
            initial_delay_nanos,
            max_delay_nanos,
        }
    }

    /// Four attempts, starting at 250 ms and never waiting more than 2 s.
    pub fn network_requests() -> (r: Self)
        ensures
            r.wf(),
            r.max_attempts_spec() == 4,
            r.initial_delay_spec() == 250 * NANOS_PER_MILLI,
            r.max_delay_spec() == 2000 * NANOS_PER_MILLI,
    {
        Self::new(4, 250 * NANOS_PER_MILLI, 2000 * NANOS_PER_MILLI)
    }

    pub fn max_attempts(&self) -> (r: usize)
        ensures
            r == self.max_attempts_spec(),
    {
        self.max_attempts
    }

    pub fn max_delay_nanos(&self) -> (r: u128)
        ensures
            r == self.max_delay_spec(),
    {
        self.max_delay_nanos
    }

    /// The wait after failed attempt number `attempt`.
    pub fn delay_for_retry(self, attempt: usize) -> (r: u128)
        requires
            self.wf(),
        ensures
            r == backoff_delay(self.initial_delay_spec(), self.max_delay_spec(), attempt as nat),
    {
        let exponent: usize = if attempt == 0 {
            0
        } else if attempt - 1 < 31 {
            attempt - 1
        } else {
            31
        };
        let mut multiplier: u128 = 1;
        let mut k: usize = 0;
        while k < exponent
            invariant
                k <= exponent <= 31,
                multiplier == pow2_spec(k as nat),
                multiplier <= 0x8000_0000u128,
            decreases exponent - k,
        {
            proof {
                lemma_pow2_bound((k + 1) as nat);
            }
            multiplier = multiplier * 2;
            k = k + 1;
        }
        proof {
            lemma_pow2_bound(exponent as nat);
            assert(self.initial_delay_nanos * multiplier <= DURATION_MAX_NANOS * 0x8000_0000u128)
                by (nonlinear_arith)
                requires
                    self.initial_delay_nanos <= DURATION_MAX_NANOS,
                    multiplier <= 0x8000_0000u128,
            ;
        }
        let scaled = self.initial_delay_nanos * multiplier;
        let saturated = if scaled < DURATION_MAX_NANOS {
            scaled
        } else {
            DURATION_MAX_NANOS
        };
        if saturated < self.max_delay_nanos {
            saturated
        } else {
            self.max_delay_nanos
        }
    }

    /// The decision after attempt number `attempt` failed with `directive`.
    pub fn after_failure<E>(self, attempt: usize, directive: RetryDirective<E>) -> (r: RetryStep<E>)
        requires
            self.wf(),
            1 <= attempt <= self.max_attempts_spec(),
        ensures
            match directive {
                RetryDirective::Fail(e) => r == RetryStep::Stop(e),
                RetryDirective::Retry(e) => if attempt == self.max_attempts_spec() {
                    r == RetryStep::Stop(e)
                } else {
                    r == RetryStep::<E>::WaitThenRetry(
                        backoff_delay(
                            self.initial_delay_spec(),
                            self.max_delay_spec(),
                            attempt as nat,
                        ) as u128,
                    )
                },
                RetryDirective::RetryAfter { error, delay_nanos } => if attempt
                    == self.max_attempts_spec() {
                    r == RetryStep::Stop(error)
                } else {
                    r == RetryStep::<E>::WaitThenRetry(
                        min_int(delay_nanos as int, self.max_delay_spec() as int) as u128,
                    )
                },
            },
    {
        match directive {
            RetryDirective::Fail(e) => RetryStep::Stop(e),
            RetryDirective::Retry(e) => {
                if attempt == self.max_attempts {
                    RetryStep::Stop(e)
                } else {
                    RetryStep::WaitThenRetry(self.delay_for_retry(attempt))
                }
            },
            RetryDirective::RetryAfter { error, delay_nanos } => {
                if attempt == self.max_attempts {
                    RetryStep::Stop(error)
                } else if delay_nanos < self.max_delay_nanos {
                    RetryStep::WaitThenRetry(delay_nanos)
                } else {
                    RetryStep::WaitThenRetry(self.max_delay_nanos)
                }
            },
        }
    }
}

proof fn lemma_pow2_bound(e: nat)
    requires
        e <= 31,
    ensures
        1 <= pow2_spec(e) <= pow2_spec(31),
        pow2_spec(31) == 0x8000_0000,
    decreases e,
{
    reveal_with_fuel(pow2_spec, 32);
    if e > 0 {
        lemma_pow2_bound((e - 1) as nat);
        lemma_pow2_monotone((e - 1) as nat, 31);
    }
}

proof fn lemma_pow2_monotone(a: nat, b: nat)
    requires
        a <= b,
    ensures
        pow2_spec(a) <= pow2_spec(b),
    decreases b,
{
    if a < b {
        lemma_pow2_monotone(a, (b - 1) as nat);
        lemma_pow2_positive((b - 1) as nat);
    }
}

proof fn lemma_pow2_positive(e: nat)
    ensures
        pow2_spec(e) >= 1,
    decreases e,
{
    if e > 0 {
        lemma_pow2_positive((e - 1) as nat);
    }
}

/// The backoff never shrinks from one failed attempt to the next, and never exceeds the
/// policy's maximum delay.
pub proof fn lemma_backoff_monotone_and_capped(initial: nat, max: nat, attempt: nat)
    ensures
        backoff_delay(initial, max, attempt) <= backoff_delay(initial, max, attempt + 1),
        backoff_delay(initial, max, attempt) <= max,
{
    let e1 = min_int(if attempt == 0 { 0 } else { attempt - 1 }, 31);
    let e2 = min_int(attempt as int, 31);
    assert(e1 <= e2);
    lemma_pow2_monotone(e1 as nat, e2 as nat);
    let p1 = pow2_spec(e1 as nat);
    let p2 = pow2_spec(e2 as nat);
    assert(initial * p1 <= initial * p2) by (nonlinear_arith)
        requires
            p1 <= p2,
    ;
}

/// A failed attempt never makes the loop wait longer than the policy's maximum delay, and
/// the last permitted attempt always ends the loop.
pub proof fn lemma_retry_step_bounded<E>(
    policy: RetryPolicy,
    attempt: nat,
    directive: RetryDirective<E>,
    step: RetryStep<E>,
)
    requires
        policy.wf(),
        1 <= attempt <= policy.max_attempts_spec(),
        match directive {
            RetryDirective::Fail(e) => step == RetryStep::Stop(e),
            RetryDirective::Retry(e) => if attempt == policy.max_attempts_spec() {
                step == RetryStep::Stop(e)
            } else {
                step == RetryStep::<E>::WaitThenRetry(
                    backoff_delay(policy.initial_delay_spec(), policy.max_delay_spec(), attempt) as u128,
                )
            },
            RetryDirective::RetryAfter { error, delay_nanos } => if attempt
                == policy.max_attempts_spec() {
                step == RetryStep::Stop(error)
            } else {
                step == RetryStep::<E>::WaitThenRetry(
                    min_int(delay_nanos as int, policy.max_delay_spec() as int) as u128,
                )
            },
        },
    ensures
        step matches RetryStep::WaitThenRetry(d) ==> d <= policy.max_delay_spec(),
        attempt == policy.max_attempts_spec() ==> step is Stop,
{
    lemma_backoff_monotone_and_capped(policy.initial_delay_spec(), policy.max_delay_spec(), attempt);
}


/// The number written by the decimal digits `s`.
pub open spec fn digits_value(s: Seq<char>) -> nat
    decreases s.len(),
{
    if s.len() == 0 {
        0
    } else {
        digits_value(s.drop_last()) * 10 + (s.last() as nat - '0' as nat) as nat
    }
}

/// The delay that a `Retry-After` header asks for, in nanoseconds: its value, once trimmed,
/// read as a whole number of seconds that fits in a `u64`; nothing for any other value.
pub open spec fn retry_after_spec(value: Seq<char>) -> Option<nat> {
    let t = trim_seq(value);
    if t.len() > 0 && (forall|i: int| 0 <= i < t.len() ==> is_ascii_digit_spec(#[trigger] t[i])) && digits_value(t) <= u64::MAX {
        Some(digits_value(t) * 1_000_000_000)
    } else {
        None
    }
}

pub fn retry_after_delay(header_value: Option<&str>) -> (r: Option<u128>)
    ensures
        match header_value {
            Some(v) => match retry_after_spec(v@) {
                Some(d) => r == Some(d as u128),
                None => r is None,
            },
            None => r is None,
        },
{
    let value = match header_value {
        Some(v) => v,
        None => return None,
    };
    let t = trim(chars_of(value).as_slice());
    if t.len() == 0 {
        return None;
    }
    let mut seconds: u64 = 0;
    let mut i: usize = 0;
    while i < t.len()
        invariant
            i <= t@.len(),
            t@ == trim_seq(value@),
            t@.len() > 0,
            header_value == Some(value),
            forall|j: int| 0 <= j < i ==> is_ascii_digit_spec(#[trigger] t@[j]),
            seconds as nat == digits_value(t@.subrange(0, i as int)),
        decreases t.len() - i,
    {
        let c = t[i];
        if !('0' <= c && c <= '9') {
            assert(!is_ascii_digit_spec(t@[i as int]));
            return None;
        }
        assert(t@.subrange(0, i + 1).drop_last() =~= t@.subrange(0, i as int));
        let d = (c as u32 - '0' as u32) as u64;
        if seconds > (u64::MAX - d) / 10 {
            proof {
                assert(digits_value(t@.subrange(0, i + 1)) == seconds * 10 + d) by (nonlinear_arith)
                    requires
                        digits_value(t@.subrange(0, i + 1)) == digits_value(t@.subrange(0, i as int)) * 10 + d,
                        seconds as nat == digits_value(t@.subrange(0, i as int));
                assert(seconds * 10 + d > u64::MAX) by (nonlinear_arith)
                    requires
                        seconds > (u64::MAX - d) / 10,
                        d <= 9;
                lemma_digits_value_grows(t@, i as int + 1);
                assert(t@.subrange(0, t@.len() as int) =~= t@);
                assert(t@.subrange(0, i + 1).last() == c);
            }
            return None;
        }
        assert(seconds * 10 + d <= u64::MAX) by (nonlinear_arith)
            requires
                seconds <= (u64::MAX - d) / 10,
                d <= 9;
        seconds = seconds * 10 + d;
        i = i + 1;
    }
    assert(t@.subrange(0, t@.len() as int) =~= t@);
    Some((seconds as u128) * 1_000_000_000u128)
}

proof fn lemma_digits_value_grows(s: Seq<char>, k: int)
    requires
        0 <= k <= s.len(),
        forall|i: int| 0 <= i < k ==> is_ascii_digit_spec(#[trigger] s[i]),
    ensures
        forall|j: int| k <= j <= s.len() && (forall|i: int| 0 <= i < j ==> is_ascii_digit_spec(#[trigger] s[i])) ==> digits_value(s.subrange(0, j)) >= digits_value(s.subrange(0, k)),
    decreases s.len() - k,
{
    assert forall|j: int| k <= j <= s.len() && (forall|i: int| 0 <= i < j ==> is_ascii_digit_spec(#[trigger] s[i])) implies digits_value(s.subrange(0, j)) >= digits_value(s.subrange(0, k)) by {
        if j > k {
            lemma_digits_value_grows(s, k + 1);
            assert(s.subrange(0, k + 1).drop_last() =~= s.subrange(0, k));
            assert(digits_value(s.subrange(0, k + 1)) >= digits_value(s.subrange(0, k))) by (nonlinear_arith)
                requires
                    digits_value(s.subrange(0, k + 1)) == digits_value(s.subrange(0, k)) * 10 + (s.subrange(0, k + 1).last() as nat - '0' as nat) as nat;
        }
    }
}
} // verus!
