//! A memoized, overflow-checked Fibonacci engine with strain-themed
//! multipliers.
//!
//! The engine computes terms of a distorted Fibonacci recurrence
//! `a(n) = floor(multiplier * (a(n-1) + a(n-2)))`, with `a(0) = 0` and
//! `a(1) = 1`, where the addition saturates at `u128::MAX` and the
//! multiplier is a strain-specific rational factor. Single terms,
//! sequences, range maps and consecutive-ratio pairs are all proved to
//! match that recurrence exactly.

pub mod engine;
pub mod lazy;
pub mod recurrence;
pub mod strain;

pub use engine::{FibError, RandyCannabisFibonacci};
pub use lazy::CannabisFibonacciIterator;
pub use recurrence::{clamp_u128, distort_step, distorted_fib, fib, sat_add_u128};
pub use strain::CannabisStrain;
