//! The distorted Fibonacci recurrence: its mathematical definition, the
//! overflow-free executable step, and the laws relating it to the
//! standard Fibonacci numbers.

use vstd::arithmetic::div_mod::{
    lemma_div_basics, lemma_div_pos_is_pos, lemma_fundamental_div_mod,
    lemma_hoist_over_denominator, lemma_mod_division_less_than_divisor,
};
use vstd::arithmetic::mul::{lemma_mul_inequality, lemma_mul_upper_bound};
use vstd::prelude::*;

verus! {

/// Values are stored as `u128`; anything larger is clamped to `u128::MAX`.
pub open spec fn clamp_u128(x: int) -> int {
    if x > u128::MAX as int {
        u128::MAX as int
    } else {
        x
    }
}

/// Saturating addition on `u128`-sized values.
pub open spec fn sat_add_u128(a: int, b: int) -> int {
    clamp_u128(a + b)
}

/// One advance of the distorted recurrence: the saturating sum of the two
/// previous terms, multiplied by the rational multiplier `num / den` and
/// truncated toward zero, clamped to the representable range.
pub open spec fn distort_step(num: int, den: int, a: int, b: int) -> int {
    clamp_u128(sat_add_u128(a, b) * num / den)
}

/// The n-th term of the distorted Fibonacci recurrence with multiplier
/// `num / den`: `a(0) = 0`, `a(1) = 1`, and
/// `a(n) = floor((a(n-1) + a(n-2)) * num / den)` with saturating addition.
pub open spec fn distorted_fib(num: int, den: int, n: nat) -> int
    decreases n,
{
    if n == 0 {
        0
    } else if n == 1 {
        1
    } else {
        distort_step(
            num,
            den,
            distorted_fib(num, den, (n - 1) as nat),
            distorted_fib(num, den, (n - 2) as nat),
        )
    }
}

/// The standard Fibonacci numbers.
pub open spec fn fib(n: nat) -> nat
    decreases n,
{
    if n == 0 {
        0
    } else if n == 1 {
        1
    } else {
        fib((n - 1) as nat) + fib((n - 2) as nat)
    }
}

/// The base cases of the distorted recurrence, for any multiplier.
pub proof fn lemma_distorted_fib_base(num: int, den: int)
    ensures
        distorted_fib(num, den, 0) == 0,
        distorted_fib(num, den, 1) == 1,
{
}

/// The distorted recurrence itself: for every index beyond the base
/// cases, the term is the saturating sum of the two previous terms,
/// multiplied by `num / den`, truncated toward zero and clamped to the
/// `u128` range.
pub proof fn lemma_distorted_fib_recurrence(num: int, den: int, n: nat)
    requires
        2 <= n,
    ensures
        distorted_fib(num, den, n) == clamp_u128(
            sat_add_u128(
                distorted_fib(num, den, (n - 1) as nat),
                distorted_fib(num, den, (n - 2) as nat),
            ) * num / den,
        ),
{
}

/// The Fibonacci pair `(fib(n), fib(n + 1))`, defined by a linear
/// recursion so that concrete values can be evaluated quickly.
pub open spec fn fib_pair(n: nat) -> (nat, nat)
    decreases n,
{
    if n == 0 {
        (0, 1)
    } else {
        let p = fib_pair((n - 1) as nat);
        (p.1, p.0 + p.1)
    }
}

/// `fib_pair` computes consecutive Fibonacci numbers.
pub proof fn lemma_fib_pair(n: nat)
    ensures
        fib_pair(n).0 == fib(n),
        fib_pair(n).1 == fib(n + 1),
    decreases n,
{
    if n > 0 {
        lemma_fib_pair((n - 1) as nat);
    }
}

/// The Fibonacci numbers are monotonic.
pub proof fn lemma_fib_monotonic(m: nat, n: nat)
    requires
        m <= n,
    ensures
        fib(m) <= fib(n),
    decreases n - m,
{
    if m < n {
        lemma_fib_monotonic(m, (n - 1) as nat);
        if n >= 2 {
            assert(fib(n) == fib((n - 1) as nat) + fib((n - 2) as nat));
        } else {
            assert(n == 1);
        }
    }
}

/// Concrete evaluation of `fib_pair` at 31, one fuel-sized chunk of the
/// climb to the safety bound.
proof fn lemma_fib_pair_at_31()
    ensures
        fib_pair(31).0 == 1346269,
        fib_pair(31).1 == 2178309,
{
    reveal_with_fuel(fib_pair, 32);
}

/// Concrete evaluation of `fib_pair` at 62, one fuel-sized chunk of the
/// climb to the safety bound.
proof fn lemma_fib_pair_at_62()
    ensures
        fib_pair(62).0 == 4052739537881,
        fib_pair(62).1 == 6557470319842,
{
    lemma_fib_pair_at_31();
    reveal_with_fuel(fib_pair, 32);
}

/// Concrete evaluation of `fib_pair` at 93, one fuel-sized chunk of the
/// climb to the safety bound.
proof fn lemma_fib_pair_at_93()
    ensures
        fib_pair(93).0 == 12200160415121876738,
        fib_pair(93).1 == 19740274219868223167,
{
    lemma_fib_pair_at_62();
    reveal_with_fuel(fib_pair, 32);
}

/// Concrete evaluation of `fib_pair` at 124, one fuel-sized chunk of the
/// climb to the safety bound.
proof fn lemma_fib_pair_at_124()
    ensures
        fib_pair(124).0 == 36726740705505779255899443,
        fib_pair(124).1 == 59425114757512643212875125,
{
    lemma_fib_pair_at_93();
    reveal_with_fuel(fib_pair, 32);
}

/// Concrete evaluation of `fib_pair` at 155, one fuel-sized chunk of the
/// climb to the safety bound.
proof fn lemma_fib_pair_at_155()
    ensures
        fib_pair(155).0 == 110560307156090817237632754212345,
        fib_pair(155).1 == 178890334785183168257455287891792,
{
    lemma_fib_pair_at_124();
    reveal_with_fuel(fib_pair, 32);
}

/// Concrete evaluation of `fib_pair` at 186, one fuel-sized chunk of the
/// climb to the safety bound.
proof fn lemma_fib_pair_at_186()
    ensures
        fib_pair(186).0 == 332825110087067562321196029789634457848,
        fib_pair(186).1 == 538522340430300790495419781092981030533,
{
    lemma_fib_pair_at_155();
    reveal_with_fuel(fib_pair, 32);
}

/// The Fibonacci number at the engine's safety bound still fits in a
/// `u128`; this is what makes 186 the largest index the engine accepts.
pub proof fn lemma_fib_186_fits()
    ensures
        fib(186) <= u128::MAX,
{
    lemma_fib_pair_at_186();
    lemma_fib_pair(186);
}

/// With the identity multiplier the distorted recurrence is the standard
/// Fibonacci sequence, at every index the engine accepts: neither the
/// saturating addition nor the clamp ever engages below the bound.
pub proof fn lemma_identity_multiplier_matches_fib(n: nat)
    requires
        n <= 186,
    ensures
        distorted_fib(1, 1, n) == fib(n),
    decreases n,
{
    if n >= 2 {
        lemma_identity_multiplier_matches_fib((n - 1) as nat);
        lemma_identity_multiplier_matches_fib((n - 2) as nat);
        lemma_fib_monotonic(n, 186);
        lemma_fib_186_fits();
        let s = sat_add_u128(fib((n - 1) as nat) as int, fib((n - 2) as nat) as int);
        assert(s == fib(n));
        lemma_div_basics(s * 1);
        assert(distorted_fib(1, 1, n) == clamp_u128(s * 1 / 1));
    }
}

/// Executable form of `distort_step`. Computes
/// `clamp(floor((a + b saturating) * num / den))` without overflowing,
/// by splitting the saturating sum `s` into `den * (s / den) + s % den`.
pub fn distort_step_exec(num: u32, den: u32, a: u128, b: u128) -> (r: u128)
    requires
        1 <= den,
    ensures
        r as int == distort_step(num as int, den as int, a as int, b as int),
{
    let s: u128 = a.saturating_add(b);
    let m: u128 = num as u128;
    let d: u128 = den as u128;
    let q: u128 = s / d;
    let rem: u128 = s % d;
    proof {
        lemma_fundamental_div_mod(s as int, d as int);
        // rem * m stays far below u128::MAX: both factors fit in 32 bits.
        lemma_mul_upper_bound(rem as int, u32::MAX as int, m as int, u32::MAX as int);
        // (s * m) / d == q * m + (rem * m) / d
        assert((d as int * (q as int) + rem as int) * (m as int) == (q as int * (m as int)) * (
        d as int) + rem as int * (m as int)) by (nonlinear_arith);
        lemma_hoist_over_denominator(rem as int * (m as int), q as int * (m as int), den as nat);
        lemma_div_pos_is_pos(rem as int * (m as int), d as int);
    }
    let tail: u128 = rem * m / d;
    if m == 0 {
        assert(s as int * (m as int) == 0);
        0
    } else {
        let cap: u128 = u128::MAX / m;
        if q > cap {
            proof {
                // q >= cap + 1, so q * m >= (cap + 1) * m > u128::MAX.
                lemma_mul_inequality(cap as int + 1, q as int, m as int);
                lemma_fundamental_div_mod(u128::MAX as int, m as int);
                assert((cap as int + 1) * (m as int) == cap as int * (m as int) + m as int)
                    by (nonlinear_arith);
            }
            u128::MAX
        } else {
            proof {
                // q <= cap, so q * m <= cap * m <= u128::MAX.
                lemma_mul_inequality(q as int, cap as int, m as int);
                lemma_fundamental_div_mod(u128::MAX as int, m as int);
                lemma_mod_division_less_than_divisor(u128::MAX as int, m as int);
                assert(cap as int * (m as int) == m as int * (cap as int)) by (nonlinear_arith);
            }
            let qm: u128 = q * m;
            if qm > u128::MAX - tail {
                u128::MAX
            } else {
                qm + tail
            }
        }
    }
}

} // verus!
