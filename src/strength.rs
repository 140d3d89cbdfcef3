//! Output intensity as a fixed-point fraction of full power.

use vstd::prelude::*;

verus! {

/// The number of units that make up full intensity.
pub const ONE: u32 = 1_000_000_000;

/// An intensity between off (0) and full power (`ONE` units).
#[derive(Debug, Clone, Copy, PartialEq, Eq, Structural)]
pub struct Strength {
    units: u32,
}

/// `x` saturated into `0..=ONE`.
pub open spec fn clamp_units(x: int) -> nat {
    if x < 0 {
        0
    } else if x > ONE {
        ONE as nat
    } else {
        x as nat
    }
}

impl View for Strength {
    type V = nat;

    closed spec fn view(&self) -> nat {
        self.units as nat
    }
}

impl Strength {
    #[verifier::type_invariant]
    pub closed spec fn in_range(self) -> bool {
        self.units <= ONE
    }

    /// A strength of exactly `units`, which must lie in `0..=ONE`.
    pub fn new(units: u32) -> (r: Self)
        requires
            units <= ONE,
        ensures
            r@ == units,
    {
        Strength { units }
    }

    /// A strength of `units`, saturated into `0..=ONE`.
    pub fn new_clamped(units: i64) -> (r: Self)
        ensures
            r@ == clamp_units(units as int),
    {
        if units < 0 {
            Strength { units: 0 }
        } else if units > ONE as i64 {
            Strength { units: ONE }
        } else {
            Strength { units: units as u32 }
        }
    }

    /// Whether the output is off.
    pub fn is_off(&self) -> (r: bool)
        ensures
            r == (self@ == 0),
    {
        self.units == 0
    }

    /// The intensity in units of `1 / ONE`.
    pub fn into_inner(self) -> (r: u32)
        ensures
            r == self@,
            r <= ONE,
    {
        proof {
            use_type_invariant(&self);
        }
        self.units
    }

    /// Two strengths with the same intensity are the same value.
    pub proof fn lemma_view_injective(a: Strength, b: Strength)
        requires
            a@ == b@,
        ensures
            a == b,
    {
    }

    /// What the invariant says of the intensity.
    pub proof fn lemma_in_range(self)
        requires
            self.in_range(),
        ensures
            self@ <= ONE,
    {
    }
}

} // verus!
