//! The seal of [`CanonicalFixedSizedPod`](super::CanonicalFixedSizedPod).

use vstd::prelude::*;

use crate::utils::{Double, Fd, Float, Fraction, Id, Rectangle};

verus! {

/// Only the types below are canonical representations of a fixed-size pod:
/// this trait cannot be named outside the crate, so no other type can join.
pub trait CanonicalFixedSizedPodSeal {

}

impl CanonicalFixedSizedPodSeal for () {

}

impl CanonicalFixedSizedPodSeal for bool {

}

impl CanonicalFixedSizedPodSeal for i32 {

}

impl CanonicalFixedSizedPodSeal for i64 {

}

impl CanonicalFixedSizedPodSeal for Float {

}

impl CanonicalFixedSizedPodSeal for Double {

}

impl CanonicalFixedSizedPodSeal for Rectangle {

}

impl CanonicalFixedSizedPodSeal for Fraction {

}

impl CanonicalFixedSizedPodSeal for Id {

}

impl CanonicalFixedSizedPodSeal for Fd {

}

} // verus!
