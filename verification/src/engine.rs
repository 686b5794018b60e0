//! The memoized, overflow-checked Fibonacci engine with strain-themed
//! multipliers: single terms, sequences, range maps and consecutive-ratio
//! pairs, all proved against the distorted recurrence.

use crate::recurrence::{distort_step_exec, distorted_fib};
use crate::strain::{spec_multiplier_den, spec_multiplier_num, spec_name, CannabisStrain};
use std::collections::HashMap;
use vstd::prelude::*;

verus! {

broadcast use vstd::std_specs::hash::group_hash_axioms;

/// The largest index whose undistorted Fibonacci number fits in a `u128`;
/// the engine refuses anything beyond it before computing.
pub const MAX_SAFE_INDEX: u64 = 186;

/// Errors surfaced by the engine.
#[derive(Debug, Clone, Copy, PartialEq, Eq, Structural)]
pub enum FibError {
    /// The requested index exceeds the safe precomputed bound of 186.
    OverflowRisk,
    /// The range end is not strictly greater than its start.
    InvalidRange,
    /// A concurrent worker task ended abnormally. The engine's own range
    /// computation never raises it; a driver that farms chunks out to
    /// worker threads reports a failed join with it.
    WorkerFailure,
}

/// The consecutive-ratio pairs of the first `terms` distorted terms:
/// for each `i` in `[1, terms)` whose predecessor term is nonzero, the
/// pair `(term(i), term(i - 1))`; pairs with a zero denominator are
/// omitted.
pub open spec fn ratio_pairs(num: int, den: int, terms: nat) -> Seq<(u128, u128)>
    decreases terms,
{
    if terms <= 1 {
        Seq::empty()
    } else {
        let prev = ratio_pairs(num, den, (terms - 1) as nat);
        if distorted_fib(num, den, (terms - 2) as nat) > 0 {
            prev.push(
                (
                    distorted_fib(num, den, (terms - 1) as nat) as u128,
                    distorted_fib(num, den, (terms - 2) as nat) as u128,
                ),
            )
        } else {
            prev
        }
    }
}

/// Cannabis-enhanced Fibonacci calculator: a memoization table of
/// distorted terms together with the strain multiplier that distorts
/// them.
pub struct RandyCannabisFibonacci {
    cache: Vec<u128>,
    mult_num: u32,
    mult_den: u32,
    strain_name: &'static str,
}

impl RandyCannabisFibonacci {
    /// Numerator of the engine's multiplier.
    pub closed spec fn num(&self) -> int {
        self.mult_num as int
    }

    /// Denominator of the engine's multiplier.
    pub closed spec fn den(&self) -> int {
        self.mult_den as int
    }

    /// The engine's display name.
    pub closed spec fn label(&self) -> Seq<char> {
        self.strain_name@
    }

    /// How many terms the memoization table holds.
    pub closed spec fn cached(&self) -> nat {
        self.cache@.len()
    }

    /// The cache invariant: the table is seeded with the two base terms
    /// and every entry `i` holds exactly the i-th distorted term.
    pub closed spec fn well_formed(&self) -> bool {
        &&& 1 <= self.mult_den
        &&& 2 <= self.cache@.len()
        &&& forall|i: int|
            0 <= i < self.cache@.len() ==> self.cache@[i] as int == distorted_fib(
                self.num(),
                self.den(),
                i as nat,
            )
    }

    /// Multiplier and name preserved: no operation ever changes them.
    pub open spec fn same_strain(&self, other: &Self) -> bool {
        &&& self.num() == other.num()
        &&& self.den() == other.den()
        &&& self.label() == other.label()
    }

    /// Create a new calculator for the given strain, with the cache
    /// seeded with the two base terms.
    pub fn new(strain: CannabisStrain) -> (engine: Self)
        ensures
            engine.well_formed(),
            engine.num() == spec_multiplier_num(strain),
            engine.den() == spec_multiplier_den(strain),
            engine.label() == spec_name(strain),
            engine.cached() == 2,
    {
        let (num, den, _personality, _description) = strain.characteristics();
        let mut cache: Vec<u128> = Vec::new();
        cache.push(0);
        cache.push(1);
        RandyCannabisFibonacci { cache, mult_num: num, mult_den: den, strain_name: strain.name() }
    }

    /// The engine's display name.
    pub fn strain_name(&self) -> (r: &'static str)
        ensures
            r@ == self.label(),
    {
        self.strain_name
    }

    /// The n-th distorted Fibonacci term. Every index up to 186 is
    /// answered, by memoized iteration on the recurrence; any larger
    /// index is refused as an overflow risk before computing. The cache
    /// only ever grows.
    pub fn plant_spirit_fibonacci(&mut self, n: u64) -> (r: Result<u128, FibError>)
        requires
            old(self).well_formed(),
        ensures
            final(self).well_formed(),
            final(self).same_strain(old(self)),
            old(self).cached() <= final(self).cached(),
            n <= 186 ==> r is Ok && r->Ok_0 as int == distorted_fib(
                old(self).num(),
                old(self).den(),
                n as nat,
            ),
            n > 186 ==> r is Err && r->Err_0 == FibError::OverflowRisk && *final(self) == *old(self),
    {
        if n > MAX_SAFE_INDEX {
            return Err(FibError::OverflowRisk);
        }
        let num: u32 = self.mult_num;
        let den: u32 = self.mult_den;
        let target: usize = n as usize;
        while self.cache.len() <= target
            invariant
                self.well_formed(),
                self.same_strain(old(self)),
                self.mult_num == num,
                self.mult_den == den,
                old(self).cached() <= self.cached(),
                target <= 186,
            decreases target + 1 - self.cache.len(),
        {
            let len = self.cache.len();
            let b = self.cache[len - 1];
            let a = self.cache[len - 2];
            let v = distort_step_exec(num, den, b, a);
            self.cache.push(v);
        }
        Ok(self.cache[target])
    }

    /// The ordered sequence of the first `count` distorted terms,
    /// `[term(0), ..., term(count - 1)]`; each element equals what
    /// `plant_spirit_fibonacci` returns for its index. Fails once an
    /// index beyond 186 would be needed, that is for `count > 187`.
    pub fn generate_sequence(&mut self, count: usize) -> (r: Result<Vec<u128>, FibError>)
        requires
            old(self).well_formed(),
        ensures
            final(self).well_formed(),
            final(self).same_strain(old(self)),
            old(self).cached() <= final(self).cached(),
            count <= 187 ==> r is Ok && r->Ok_0@.len() == count && forall|i: int|
                0 <= i < count ==> r->Ok_0@[i] as int == distorted_fib(
                    old(self).num(),
                    old(self).den(),
                    i as nat,
                ),
            count > 187 ==> r is Err && r->Err_0 == FibError::OverflowRisk,
    {
        let mut sequence: Vec<u128> = Vec::new();
        let mut i: usize = 0;
        while i < count
            invariant
                i <= count,
                self.well_formed(),
                self.same_strain(old(self)),
                old(self).cached() <= self.cached(),
                i <= 187,
                sequence@.len() == i,
                forall|j: int|
                    0 <= j < i ==> sequence@[j] as int == distorted_fib(
                        old(self).num(),
                        old(self).den(),
                        j as nat,
                    ),
            decreases count - i,
        {
            match self.plant_spirit_fibonacci(i as u64) {
                Ok(value) => {
                    sequence.push(value);
                },
                Err(e) => {
                    return Err(e);
                },
            }
            i = i + 1;
        }
        Ok(sequence)
    }

    /// A map from every index in `[start, end)` that can be computed
    /// (that is, every index up to 186) to its distorted term; larger
    /// indices are silently absent. An empty or inverted range is
    /// refused. Each value equals what `plant_spirit_fibonacci` returns
    /// standalone, so the result is independent of how a driver splits
    /// the range into chunks.
    pub fn parallel_fibonacci_range(&mut self, start: u64, end: u64) -> (r: Result<
        HashMap<u64, u128>,
        FibError,
    >)
        requires
            old(self).well_formed(),
        ensures
            final(self).well_formed(),
            final(self).same_strain(old(self)),
            old(self).cached() <= final(self).cached(),
            end <= start ==> r is Err && r->Err_0 == FibError::InvalidRange && *final(self) == *old(self),
            end > start ==> r is Ok && forall|k: u64| #[trigger]
                r->Ok_0@.contains_key(k) <==> (start <= k < end && k <= 186),
            end > start ==> forall|k: u64|
                start <= k < end && k <= 186 ==> #[trigger] r->Ok_0@[k] as int == distorted_fib(
                    old(self).num(),
                    old(self).den(),
                    k as nat,
                ),
    {
        if end <= start {
            return Err(FibError::InvalidRange);
        }
        let mut results: HashMap<u64, u128> = HashMap::new();
        let mut k: u64 = start;
        while k < end
            invariant
                start <= k <= end,
                self.well_formed(),
                self.same_strain(old(self)),
                old(self).cached() <= self.cached(),
                forall|j: u64| #[trigger]
                    results@.contains_key(j) <==> (start <= j < k && j <= 186),
                forall|j: u64|
                    start <= j < k && j <= 186 ==> #[trigger] results@[j] as int == distorted_fib(
                        old(self).num(),
                        old(self).den(),
                        j as nat,
                    ),
            decreases end - k,
        {
            if k <= MAX_SAFE_INDEX {
                match self.plant_spirit_fibonacci(k) {
                    Ok(value) => {
                        results.insert(k, value);
                    },
                    Err(_) => {
                    },
                }
            }
            k = k + 1;
        }
        Ok(results)
    }

    /// The consecutive-ratio pairs `(term(i), term(i - 1))` of the first
    /// `terms` distorted terms, with pairs whose denominator term is zero
    /// omitted. The quotient itself is left to the caller; the pairs
    /// carry the exact integers.
    pub fn golden_ratio_analysis(&mut self, terms: usize) -> (r: Result<
        Vec<(u128, u128)>,
        FibError,
    >)
        requires
            old(self).well_formed(),
        ensures
            final(self).well_formed(),
            final(self).same_strain(old(self)),
            old(self).cached() <= final(self).cached(),
            terms <= 187 ==> r is Ok && r->Ok_0@ == ratio_pairs(
                old(self).num(),
                old(self).den(),
                terms as nat,
            ),
            terms > 187 ==> r is Err && r->Err_0 == FibError::OverflowRisk,
    {
        let sequence = match self.generate_sequence(terms) {
            Ok(s) => s,
            Err(e) => {
                return Err(e);
            },
        };
        let mut ratios: Vec<(u128, u128)> = Vec::new();
        let mut i: usize = 1;
        while i < sequence.len()
            invariant
                1 <= i,
                i <= sequence@.len() || i == 1,
                sequence@.len() == terms,
                terms <= 187,
                forall|j: int|
                    0 <= j < terms ==> sequence@[j] as int == distorted_fib(
                        old(self).num(),
                        old(self).den(),
                        j as nat,
                    ),
                ratios@ == ratio_pairs(old(self).num(), old(self).den(), i as nat),
            decreases sequence@.len() - i,
        {
            if sequence[i - 1] > 0 {
                ratios.push((sequence[i], sequence[i - 1]));
            }
            i = i + 1;
        }
        Ok(ratios)
    }
}

} // verus!
