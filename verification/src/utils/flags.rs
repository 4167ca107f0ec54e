//! Sets of flags, each held in the bits of an integer.

use vstd::prelude::*;

verus! {

/// Property is read-only.
pub const SPA_POD_PROP_FLAG_READONLY: u32 = 1;

/// Property is some sort of hardware parameter.
pub const SPA_POD_PROP_FLAG_HARDWARE: u32 = 2;

/// Property contains a dictionary struct.
pub const SPA_POD_PROP_FLAG_HINT_DICT: u32 = 4;

/// Property is mandatory.
pub const SPA_POD_PROP_FLAG_MANDATORY: u32 = 8;

/// Property choices need no fixation.
pub const SPA_POD_PROP_FLAG_DONT_FIXATE: u32 = 16;

/// Dictionary has been sorted.
pub const SPA_DICT_FLAG_SORTED: u32 = 1;

/// Flags of a [`Choice`](crate::utils::Choice). None is defined yet; the
/// bits that a pod carries are kept as they are.
#[derive(Debug, PartialEq, Eq, Clone, Copy, Structural)]
pub struct ChoiceFlags {
    bits: u32,
}

impl ChoiceFlags {
    /// The bits of the set.
    pub closed spec fn spec_bits(self) -> u32 {
        self.bits
    }

    /// The set without any flag.
    pub fn empty() -> (r: Self)
        ensures
            r.bits() == 0,
    {
        ChoiceFlags { bits: 0 }
    }

    /// The bits of the set.
    #[verifier::when_used_as_spec(spec_bits)]
    pub fn bits(self) -> (r: u32)
        ensures
            r == self.bits(),
    {
        self.bits
    }

    /// The set with exactly the given bits, known or not.
    pub fn from_bits_retain(bits: u32) -> (r: Self)
        ensures
            r.bits() == bits,
    {
        ChoiceFlags { bits }
    }
}

/// Flags of a [`Property`](crate::pod::Property).
#[derive(Debug, PartialEq, Eq, Clone, Copy, Structural)]
pub struct PropertyFlags {
    bits: u32,
}

impl PropertyFlags {
    /// The bits of the set.
    pub closed spec fn spec_bits(self) -> u32 {
        self.bits
    }

    /// The set without any flag.
    pub fn empty() -> (r: Self)
        ensures
            r.bits() == 0,
    {
        PropertyFlags { bits: 0 }
    }

    /// The bits of the set.
    #[verifier::when_used_as_spec(spec_bits)]
    pub fn bits(self) -> (r: u32)
        ensures
            r == self.bits(),
    {
        self.bits
    }

    /// The set with exactly the given bits, known or not.
    pub fn from_bits_retain(bits: u32) -> (r: Self)
        ensures
            r.bits() == bits,
    {
        PropertyFlags { bits }
    }

    /// Whether every flag of `other` is in `self`.
    pub fn contains(self, other: Self) -> (r: bool)
        ensures
            r <==> self.bits() & other.bits() == other.bits(),
    {
        self.bits & other.bits == other.bits
    }

    /// The flags that are in `self` or in `other`.
    pub fn union(self, other: Self) -> (r: Self)
        ensures
            r.bits() == self.bits() | other.bits(),
    {
        PropertyFlags { bits: self.bits | other.bits }
    }
}

} // verus!
