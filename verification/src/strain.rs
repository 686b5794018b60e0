//! Cannabis strain types and the rational multiplier each one applies to
//! the Fibonacci recurrence.

use vstd::prelude::*;

verus! {

/// Cannabis strain types for algorithmic variation.
#[derive(Debug, Clone, Copy, PartialEq, Eq, Structural)]
pub enum CannabisStrain {
    Sativa,
    Indica,
    Hybrid,
}

/// Numerator of the strain multiplier: Sativa applies 1.2 = 6/5, Indica
/// 0.8 = 4/5, Hybrid the identity 1 = 1/1.
pub open spec fn spec_multiplier_num(s: CannabisStrain) -> int {
    match s {
        CannabisStrain::Sativa => 6,
        CannabisStrain::Indica => 4,
        CannabisStrain::Hybrid => 1,
    }
}

/// Denominator of the strain multiplier.
pub open spec fn spec_multiplier_den(s: CannabisStrain) -> int {
    match s {
        CannabisStrain::Sativa => 5,
        CannabisStrain::Indica => 5,
        CannabisStrain::Hybrid => 1,
    }
}

/// The strain's display name.
pub open spec fn spec_name(s: CannabisStrain) -> Seq<char> {
    match s {
        CannabisStrain::Sativa => "Sativa"@,
        CannabisStrain::Indica => "Indica"@,
        CannabisStrain::Hybrid => "Hybrid"@,
    }
}

impl CannabisStrain {
    /// Strain-specific performance characteristics: the multiplier as a
    /// rational `(numerator, denominator)`, a personality word, and a
    /// description.
    pub fn characteristics(&self) -> (r: (u32, u32, &'static str, &'static str))
        ensures
            r.0 as int == spec_multiplier_num(*self),
            r.1 as int == spec_multiplier_den(*self),
            1 <= r.1,
            *self is Sativa ==> r.2@ == "Energetic"@ && r.3@ == (
            "Fast computation with creative optimizations")@,
            *self is Indica ==> r.2@ == "Relaxed"@ && r.3@ == (
            "Methodical calculation with deep caching")@,
            *self is Hybrid ==> r.2@ == "Balanced"@ && r.3@ == (
            "Optimal mix of speed and accuracy")@,
    {
        match self {
            CannabisStrain::Sativa => (6, 5, "Energetic", "Fast computation with creative optimizations"),
            CannabisStrain::Indica => (4, 5, "Relaxed", "Methodical calculation with deep caching"),
            CannabisStrain::Hybrid => (1, 1, "Balanced", "Optimal mix of speed and accuracy"),
        }
    }

    /// The strain's display name.
    pub fn name(&self) -> (r: &'static str)
        ensures
            r@ == spec_name(*self),
    {
        match self {
            CannabisStrain::Sativa => "Sativa",
            CannabisStrain::Indica => "Indica",
            CannabisStrain::Hybrid => "Hybrid",
        }
    }
}

} // verus!
