//! A bounded lazy sequence of distorted Fibonacci terms: it advances by
//! the same saturating-sum-then-multiply-then-truncate rule as the
//! engine, and ends after 100 elements or once the value about to be
//! emitted exceeds half the `u128` range, whichever comes first.

use crate::recurrence::{distort_step_exec, distorted_fib};
use crate::strain::{spec_multiplier_den, spec_multiplier_num, CannabisStrain};
use vstd::prelude::*;

verus! {

/// Cannabis-enhanced Fibonacci iterator: a lazy, finite, non-restartable
/// source of distorted terms starting from `(0, 1)`.
pub struct CannabisFibonacciIterator {
    current: u128,
    next: u128,
    strain: CannabisStrain,
    count: usize,
}

impl CannabisFibonacciIterator {
    /// The strain whose multiplier distorts the terms.
    pub closed spec fn spec_strain(&self) -> CannabisStrain {
        self.strain
    }

    /// How many times the sequence has been advanced.
    pub closed spec fn steps(&self) -> nat {
        self.count as nat
    }

    /// While fewer than 100 advances have happened, the two pending
    /// values are the next two terms of the distorted recurrence; after
    /// that the sequence only ever answers `None` and the pending values
    /// no longer matter.
    pub closed spec fn well_formed(&self) -> bool {
        self.count < 100 ==> {
            &&& self.current as int == distorted_fib(
                spec_multiplier_num(self.strain),
                spec_multiplier_den(self.strain),
                self.count as nat,
            )
            &&& self.next as int == distorted_fib(
                spec_multiplier_num(self.strain),
                spec_multiplier_den(self.strain),
                (self.count + 1) as nat,
            )
        }
    }

    /// A fresh sequence for the given strain, positioned at the first
    /// term.
    pub fn new(strain: CannabisStrain) -> (it: Self)
        ensures
            it.well_formed(),
            it.spec_strain() == strain,
            it.steps() == 0,
    {
        CannabisFibonacciIterator { current: 0, next: 1, strain, count: 0 }
    }

    /// Produce the next distorted term, or signal the end of the
    /// sequence. A value comes out exactly while fewer than 100 elements
    /// have been produced and the term at hand does not exceed half of
    /// `u128::MAX`; every value produced is the term of the distorted
    /// recurrence at its position.
    pub fn next(&mut self) -> (r: Option<u128>)
        requires
            old(self).well_formed(),
        ensures
            final(self).well_formed(),
            final(self).spec_strain() == old(self).spec_strain(),
            final(self).steps() == if old(self).steps() < usize::MAX {
                old(self).steps() + 1
            } else {
                old(self).steps()
            },
            r is Some <==> (old(self).steps() < 100 && distorted_fib(
                spec_multiplier_num(old(self).spec_strain()),
                spec_multiplier_den(old(self).spec_strain()),
                old(self).steps(),
            ) <= u128::MAX as int / 2),
            r is Some ==> r->0 as int == distorted_fib(
                spec_multiplier_num(old(self).spec_strain()),
                spec_multiplier_den(old(self).spec_strain()),
                old(self).steps(),
            ),
            r is Some ==> r->0 <= u128::MAX / 2,
    {
        let result = self.current;
        let (num, den, _personality, _description) = self.strain.characteristics();
        let advanced = distort_step_exec(num, den, self.next, self.current);
        self.current = self.next;
        self.next = advanced;
        if self.count < usize::MAX {
            self.count = self.count + 1;
        }
        if self.count > 100 || result > u128::MAX / 2 {
            None
        } else {
            Some(result)
        }
    }
}

} // verus!
