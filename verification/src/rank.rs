//! Ranks: the sort keys of group members.
//!
//! A rank is a fixed-point number, counted in units of 2^-20. Every rank
//! that may be stored lies between zero and 2^53 units, so it is also an
//! exact double-precision value.

use vstd::prelude::*;

verus! {

/// Units in one whole rank step.
pub const UNITS_PER_WHOLE: i64 = 1_048_576;

/// The largest number of units a stored rank may hold.
pub const MAX_UNITS: i64 = 9_007_199_254_740_992;

/// Units of the rank given to the first member of a group.
pub const BASE_UNITS: i64 = 1_048_576_000;

/// Units added to the last rank of a group when a member is appended.
pub const INCREMENT_UNITS: i64 = 1_048_576_000;

/// Units of the footer, the rank that stands for the end of a group.
pub const FOOTER_UNITS: i64 = 9_223_372_036_854_775_807;

/// A sort key, in units of 2^-20.
#[derive(Clone, Copy, Debug, PartialEq, Eq, Structural)]
pub struct Rank {
    pub units: i64,
}

impl Rank {
    /// A rank may be stored when it is not negative and not above the limit.
    pub open spec fn is_storable(self) -> bool {
        0 <= self.units <= MAX_UNITS
    }

    /// The footer stands for "after the last member"; it is never stored.
    pub open spec fn is_footer(self) -> bool {
        self.units == FOOTER_UNITS
    }

    /// The rank of the given number of units.
    pub fn from_units(units: i64) -> (rank: Rank)
        ensures
            rank.units == units,
    {
        Rank { units }
    }

    /// The rank of a whole number.
    pub fn from_whole(whole: i32) -> (rank: Rank)
        ensures
            rank.units == whole * UNITS_PER_WHOLE,
            whole >= 0 ==> rank.is_storable(),
    {
        let wide: i64 = whole as i64;
        Rank { units: wide * UNITS_PER_WHOLE }
    }

    /// The rank given to the first member of a group.
    pub fn base() -> (rank: Rank)
        ensures
            rank.units == BASE_UNITS,
    {
        Rank { units: BASE_UNITS }
    }

    /// The rank that callers pass as right neighbour to mean the end of the group.
    pub fn footer() -> (rank: Rank)
        ensures
            rank.is_footer(),
            !rank.is_storable(),
    {
        Rank { units: FOOTER_UNITS }
    }

    /// Tells whether this rank is the footer.
    pub fn at_footer(&self) -> (yes: bool)
        ensures
            yes == self.is_footer(),
    {
        self.units == FOOTER_UNITS
    }
}

} // verus!
