//! The direction of a port.

use vstd::prelude::*;

verus! {

/// The number of the direction of inputs.
pub const SPA_DIRECTION_INPUT: u32 = 0;

/// The number of the direction of outputs.
pub const SPA_DIRECTION_OUTPUT: u32 = 1;

/// A direction: input, output, or a number that is neither.
#[derive(Copy, Clone, PartialEq, Eq, Debug, Structural)]
pub struct Direction(u32);

impl Direction {
    /// The number of this direction.
    pub closed spec fn spec_raw(self) -> u32 {
        self.0
    }

    /// The direction of inputs.
    pub fn input() -> (r: Self)
        ensures
            r.spec_raw() == SPA_DIRECTION_INPUT,
    {
        Direction(SPA_DIRECTION_INPUT)
    }

    /// The direction of outputs.
    pub fn output() -> (r: Self)
        ensures
            r.spec_raw() == SPA_DIRECTION_OUTPUT,
    {
        Direction(SPA_DIRECTION_OUTPUT)
    }

    /// The direction with the given number.
    pub fn from_raw(raw: u32) -> (r: Self)
        ensures
            r.spec_raw() == raw,
    {
        Direction(raw)
    }

    /// The number of this direction.
    pub fn as_raw(&self) -> (r: u32)
        ensures
            r == self.spec_raw(),
    {
        self.0
    }

    /// Return a new [`Direction`] in the opposite direction, turning Input to
    /// Output, and Output to Input.
    ///
    /// An unknown/invalid direction is unchanged.
    pub fn reverse(&self) -> (r: Self)
        ensures
            self.spec_raw() == SPA_DIRECTION_INPUT ==> r.spec_raw() == SPA_DIRECTION_OUTPUT,
            self.spec_raw() == SPA_DIRECTION_OUTPUT ==> r.spec_raw() == SPA_DIRECTION_INPUT,
            self.spec_raw() > SPA_DIRECTION_OUTPUT ==> r == *self,
    {
        if self.0 == SPA_DIRECTION_INPUT {
            Direction(SPA_DIRECTION_OUTPUT)
        } else if self.0 == SPA_DIRECTION_OUTPUT {
            Direction(SPA_DIRECTION_INPUT)
        } else {
            *self
        }
    }

    /// The name of this direction.
    pub fn name(&self) -> (r: &'static str)
        ensures
            self.spec_raw() == SPA_DIRECTION_INPUT ==> r@ == "Direction::Input"@,
            self.spec_raw() == SPA_DIRECTION_OUTPUT ==> r@ == "Direction::Output"@,
            self.spec_raw() > SPA_DIRECTION_OUTPUT ==> r@ == "Direction::Unknown"@,
    {
        if self.0 == SPA_DIRECTION_INPUT {
            "Direction::Input"
        } else if self.0 == SPA_DIRECTION_OUTPUT {
            "Direction::Output"
        } else {
            "Direction::Unknown"
        }
    }
}

} // verus!
