//! Miscellaneous and utility items.

pub mod dict;
pub mod direction;
pub mod flags;
pub mod names;

use vstd::prelude::*;

use crate::pod::canonical::CanonicalFixedSizedPod;
use crate::pod::model::{ChoiceEnumView, ChoiceView, Fixed};
pub use direction::Direction;
pub use flags::ChoiceFlags;

verus! {

/// An enumerated value in a pod.
#[derive(Debug, Copy, Clone, Eq, PartialEq, Structural)]
pub struct Id(pub u32);

/// A file descriptor in a pod.
#[derive(Debug, Copy, Clone, Eq, PartialEq, Structural)]
pub struct Fd(pub i64);

/// A single-precision floating point number, held as its IEEE 754 bit pattern.
#[derive(Debug, Copy, Clone, Eq, PartialEq, Structural)]
pub struct Float(pub u32);

/// A double-precision floating point number, held as its IEEE 754 bit pattern.
#[derive(Debug, Copy, Clone, Eq, PartialEq, Structural)]
pub struct Double(pub u64);

/// A rectangle with width and height.
#[derive(Debug, Copy, Clone, Eq, PartialEq, Structural)]
pub struct Rectangle {
    pub width: u32,
    pub height: u32,
}

/// A fraction with numerator and denominator.
#[derive(Debug, Copy, Clone, Eq, PartialEq, Structural)]
pub struct Fraction {
    pub num: u32,
    pub denom: u32,
}

/// The flags and choice of a choice pod.
#[derive(Debug, Eq, PartialEq, Clone)]
pub struct Choice<T: CanonicalFixedSizedPod>(pub ChoiceFlags, pub ChoiceEnum<T>);

/// A choice in a pod.
#[derive(Debug, PartialEq, Eq, Clone)]
pub enum ChoiceEnum<T: CanonicalFixedSizedPod> {
    /// No choice: a single value.
    NoChoice(T),
    /// Range.
    Range {
        /// Default value.
        default: T,
        /// Minimum value.
        min: T,
        /// Maximum value.
        max: T,
    },
    /// Range with step.
    Step {
        /// Default value.
        default: T,
        /// Minimum value.
        min: T,
        /// Maximum value.
        max: T,
        /// Step.
        step: T,
    },
    /// List.
    Enum {
        /// Default value.
        default: T,
        /// Alternative values.
        alternatives: Vec<T>,
    },
    /// Flags.
    Flags {
        /// Default value.
        default: T,
        /// Possible flags.
        flags: Vec<T>,
    },
}

/// The values of a sequence in the model.
pub open spec fn spec_fixed_seq<T: CanonicalFixedSizedPod>(values: Seq<T>) -> Seq<Fixed> {
    Seq::new(values.len(), |i: int| values[i].spec_fixed())
}

impl<T: CanonicalFixedSizedPod> View for ChoiceEnum<T> {
    type V = ChoiceEnumView;

    open spec fn view(&self) -> ChoiceEnumView {
        match self {
            ChoiceEnum::NoChoice(value) => ChoiceEnumView::NoChoice(value.spec_fixed()),
            ChoiceEnum::Range { default, min, max } => ChoiceEnumView::Range(
                default.spec_fixed(),
                min.spec_fixed(),
                max.spec_fixed(),
            ),
            ChoiceEnum::Step { default, min, max, step } => ChoiceEnumView::Step(
                default.spec_fixed(),
                min.spec_fixed(),
                max.spec_fixed(),
                step.spec_fixed(),
            ),
            ChoiceEnum::Enum { default, alternatives } => ChoiceEnumView::Enum(
                default.spec_fixed(),
                spec_fixed_seq(alternatives@),
            ),
            ChoiceEnum::Flags { default, flags } => ChoiceEnumView::Flags(
                default.spec_fixed(),
                spec_fixed_seq(flags@),
            ),
        }
    }
}

impl<T: CanonicalFixedSizedPod> View for Choice<T> {
    type V = ChoiceView;

    open spec fn view(&self) -> ChoiceView {
        ChoiceView { kind: T::spec_kind(), flags: self.0.bits(), choice: self.1@ }
    }
}

/// The type of a pod, of what a pointer points to, or of an object: a number
/// from a registry that can grow. The numbers of the types that this crate
/// reads and writes are the constants of [`crate::pod::model`].
#[derive(Copy, Clone, PartialEq, Eq, Debug, Structural)]
pub struct SpaTypes(pub u32);

impl SpaTypes {
    /// Obtain a [`SpaTypes`] from its number.
    pub fn from_raw(raw: u32) -> (r: Self)
        ensures
            r.0 == raw,
    {
        Self(raw)
    }

    /// Get the number of this `SpaTypes`.
    pub fn as_raw(&self) -> (r: u32)
        ensures
            r == self.0,
    {
        self.0
    }
}

} // verus!
