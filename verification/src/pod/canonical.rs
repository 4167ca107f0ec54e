//! The canonical representations of the fixed-size kinds of pod.

use vstd::prelude::*;

use super::model::{
    Fixed, Kind, SPA_TYPE_BOOL, SPA_TYPE_DOUBLE, SPA_TYPE_FD, SPA_TYPE_FLOAT, SPA_TYPE_FRACTION,
    SPA_TYPE_ID, SPA_TYPE_INT, SPA_TYPE_LONG, SPA_TYPE_NONE, SPA_TYPE_RECTANGLE,
};
use super::private::CanonicalFixedSizedPodSeal;
use super::wire::{
    i32_bits, i32_from_bits, i64_bits, i64_from_bits, read_u32, read_u64, write_u32, write_u64,
    ByteOrder,
};
use crate::utils::{Double, Fd, Float, Fraction, Id, Rectangle};

verus! {

impl Kind {
    /// The type tag of pods of this kind.
    pub fn type_(self) -> (r: u32)
        ensures
            r == self.spec_type(),
    {
        match self {
            Kind::Null => SPA_TYPE_NONE,
            Kind::Bool => SPA_TYPE_BOOL,
            Kind::Id => SPA_TYPE_ID,
            Kind::Int => SPA_TYPE_INT,
            Kind::Long => SPA_TYPE_LONG,
            Kind::Float => SPA_TYPE_FLOAT,
            Kind::Double => SPA_TYPE_DOUBLE,
            Kind::Rectangle => SPA_TYPE_RECTANGLE,
            Kind::Fraction => SPA_TYPE_FRACTION,
            Kind::Fd => SPA_TYPE_FD,
        }
    }

    /// The size of the body of pods of this kind.
    pub fn size(self) -> (r: u32)
        ensures
            r == self.spec_size(),
    {
        match self {
            Kind::Null => 0,
            Kind::Bool | Kind::Id | Kind::Int | Kind::Float => 4,
            Kind::Long | Kind::Double | Kind::Rectangle | Kind::Fraction | Kind::Fd => 8,
        }
    }

    /// The kind with the given type tag, if there is one.
    pub fn from_type(type_: u32) -> (r: Option<Kind>)
        ensures
            r == Kind::spec_from_type(type_),
    {
        if type_ == SPA_TYPE_NONE {
            Some(Kind::Null)
        } else if type_ == SPA_TYPE_BOOL {
            Some(Kind::Bool)
        } else if type_ == SPA_TYPE_ID {
            Some(Kind::Id)
        } else if type_ == SPA_TYPE_INT {
            Some(Kind::Int)
        } else if type_ == SPA_TYPE_LONG {
            Some(Kind::Long)
        } else if type_ == SPA_TYPE_FLOAT {
            Some(Kind::Float)
        } else if type_ == SPA_TYPE_DOUBLE {
            Some(Kind::Double)
        } else if type_ == SPA_TYPE_RECTANGLE {
            Some(Kind::Rectangle)
        } else if type_ == SPA_TYPE_FRACTION {
            Some(Kind::Fraction)
        } else if type_ == SPA_TYPE_FD {
            Some(Kind::Fd)
        } else {
            None
        }
    }
}

/// Implementors of this trait are the canonical representation of a specific
/// kind of fixed-size pod.
///
/// They take care of writing and reading the body of the pod they stand for,
/// and serve as the target of [`FixedSizedPod`] implementors. The trait is
/// sealed: it cannot be implemented outside of this crate, so that no invalid
/// pod can be serialized. To have a type of your own convert from and to a
/// fixed-size pod, implement [`FixedSizedPod`] with a fitting implementor of
/// this trait as its `CanonicalType`.
pub trait CanonicalFixedSizedPod: CanonicalFixedSizedPodSeal + Sized {
    /// The kind of pod that this type represents.
    spec fn spec_kind() -> Kind;

    /// This value in the model.
    spec fn spec_fixed(&self) -> Fixed;

    /// The value of this type that stands for a value of the model, which
    /// is of this type's kind.
    spec fn spec_of_fixed(value: Fixed) -> Self;

    /// The model and the type describe the same values.
    proof fn lemma_fixed(&self)
        ensures
            self.spec_fixed().kind() == Self::spec_kind(),
            Self::spec_of_fixed(self.spec_fixed()) == *self,
    ;

    /// The kind of pod that this type represents.
    fn kind() -> (r: Kind)
        ensures
            r == Self::spec_kind(),
    ;

    /// Appends the body of the pod that holds `self` to `out`.
    fn serialize_body(&self, order: ByteOrder, out: &mut Vec<u8>)
        ensures
            final(out)@ == old(out)@ + self.spec_fixed().spec_body(order),
    ;

    /// Reads the body of a pod of this kind that begins at `at` in `input`.
    /// Fails if fewer bytes are there than the kind needs.
    fn deserialize_body(order: ByteOrder, input: &[u8], at: usize) -> (r: Option<Self>)
        ensures
            r is Some <==> at + Self::spec_kind().spec_size() <= input@.len(),
            r is Some ==> r->0.spec_fixed() == Fixed::spec_from_body(
                order,
                Self::spec_kind(),
                input@.skip(at as int),
            ),
    ;
}

/// Whether `need` bytes are there from `at` on.
fn fits(input: &[u8], at: usize, need: usize) -> (r: bool)
    requires
        need <= 16,
    ensures
        r <==> at + need <= input@.len(),
        input@.len() <= usize::MAX,
{
    at <= input.len() && input.len() - at >= need
}

/// Serialize into a `None` type pod.
impl CanonicalFixedSizedPod for () {
    open spec fn spec_kind() -> Kind {
        Kind::Null
    }

    open spec fn spec_fixed(&self) -> Fixed {
        Fixed::Null
    }

    open spec fn spec_of_fixed(value: Fixed) -> Self {
        ()
    }

    proof fn lemma_fixed(&self) {
    }

    fn kind() -> (r: Kind) {
        Kind::Null
    }

    fn serialize_body(&self, order: ByteOrder, out: &mut Vec<u8>) {
        assert(out@ + Seq::<u8>::empty() == out@);
    }

    fn deserialize_body(order: ByteOrder, input: &[u8], at: usize) -> (r: Option<Self>) {
        if fits(input, at, 0) {
            Some(())
        } else {
            None
        }
    }
}

/// Serialize into a `Bool` type pod.
impl CanonicalFixedSizedPod for bool {
    open spec fn spec_kind() -> Kind {
        Kind::Bool
    }

    open spec fn spec_fixed(&self) -> Fixed {
        Fixed::Bool(*self)
    }

    open spec fn spec_of_fixed(value: Fixed) -> Self {
        value->Bool_0
    }

    proof fn lemma_fixed(&self) {
    }

    fn kind() -> (r: Kind) {
        Kind::Bool
    }

    fn serialize_body(&self, order: ByteOrder, out: &mut Vec<u8>) {
        write_u32(order, if *self { 1 } else { 0 }, out);
    }

    fn deserialize_body(order: ByteOrder, input: &[u8], at: usize) -> (r: Option<Self>) {
        if fits(input, at, 4) {
            let raw = read_u32(order, input, at);
            proof {
                super::wire::lemma_u32_window(order, input@, at as int);
            }
            Some(raw != 0)
        } else {
            None
        }
    }
}

/// Serialize into a `Int` type pod.
impl CanonicalFixedSizedPod for i32 {
    open spec fn spec_kind() -> Kind {
        Kind::Int
    }

    open spec fn spec_fixed(&self) -> Fixed {
        Fixed::Int(*self)
    }

    open spec fn spec_of_fixed(value: Fixed) -> Self {
        value->Int_0
    }

    proof fn lemma_fixed(&self) {
    }

    fn kind() -> (r: Kind) {
        Kind::Int
    }

    fn serialize_body(&self, order: ByteOrder, out: &mut Vec<u8>) {
        write_u32(order, i32_bits(*self), out);
    }

    fn deserialize_body(order: ByteOrder, input: &[u8], at: usize) -> (r: Option<Self>) {
        if fits(input, at, 4) {
            let raw = read_u32(order, input, at);
            proof {
                super::wire::lemma_u32_window(order, input@, at as int);
            }
            Some(i32_from_bits(raw))
        } else {
            None
        }
    }
}

/// Serialize into a `Long` type pod.
impl CanonicalFixedSizedPod for i64 {
    open spec fn spec_kind() -> Kind {
        Kind::Long
    }

    open spec fn spec_fixed(&self) -> Fixed {
        Fixed::Long(*self)
    }

    open spec fn spec_of_fixed(value: Fixed) -> Self {
        value->Long_0
    }

    proof fn lemma_fixed(&self) {
    }

    fn kind() -> (r: Kind) {
        Kind::Long
    }

    fn serialize_body(&self, order: ByteOrder, out: &mut Vec<u8>) {
        write_u64(order, i64_bits(*self), out);
    }

    fn deserialize_body(order: ByteOrder, input: &[u8], at: usize) -> (r: Option<Self>) {
        if fits(input, at, 8) {
            let raw = read_u64(order, input, at);
            proof {
                super::wire::lemma_u64_window(order, input@, at as int);
            }
            Some(i64_from_bits(raw))
        } else {
            None
        }
    }
}

/// Serialize into a `Float` type pod.
impl CanonicalFixedSizedPod for Float {
    open spec fn spec_kind() -> Kind {
        Kind::Float
    }

    open spec fn spec_fixed(&self) -> Fixed {
        Fixed::Float(self.0)
    }

    open spec fn spec_of_fixed(value: Fixed) -> Self {
        Float(value->Float_0)
    }

    proof fn lemma_fixed(&self) {
    }

    fn kind() -> (r: Kind) {
        Kind::Float
    }

    fn serialize_body(&self, order: ByteOrder, out: &mut Vec<u8>) {
        write_u32(order, self.0, out);
    }

    fn deserialize_body(order: ByteOrder, input: &[u8], at: usize) -> (r: Option<Self>) {
        if fits(input, at, 4) {
            let raw = read_u32(order, input, at);
            proof {
                super::wire::lemma_u32_window(order, input@, at as int);
            }
            Some(Float(raw))
        } else {
            None
        }
    }
}

/// Serialize into a `Double` type pod.
impl CanonicalFixedSizedPod for Double {
    open spec fn spec_kind() -> Kind {
        Kind::Double
    }

    open spec fn spec_fixed(&self) -> Fixed {
        Fixed::Double(self.0)
    }

    open spec fn spec_of_fixed(value: Fixed) -> Self {
        Double(value->Double_0)
    }

    proof fn lemma_fixed(&self) {
    }

    fn kind() -> (r: Kind) {
        Kind::Double
    }

    fn serialize_body(&self, order: ByteOrder, out: &mut Vec<u8>) {
        write_u64(order, self.0, out);
    }

    fn deserialize_body(order: ByteOrder, input: &[u8], at: usize) -> (r: Option<Self>) {
        if fits(input, at, 8) {
            let raw = read_u64(order, input, at);
            proof {
                super::wire::lemma_u64_window(order, input@, at as int);
            }
            Some(Double(raw))
        } else {
            None
        }
    }
}

/// Serialize into a `Rectangle` type pod.
impl CanonicalFixedSizedPod for Rectangle {
    open spec fn spec_kind() -> Kind {
        Kind::Rectangle
    }

    open spec fn spec_fixed(&self) -> Fixed {
        Fixed::Rectangle(self.width, self.height)
    }

    open spec fn spec_of_fixed(value: Fixed) -> Self {
        Rectangle { width: value->Rectangle_0, height: value->Rectangle_1 }
    }

    proof fn lemma_fixed(&self) {
    }

    fn kind() -> (r: Kind) {
        Kind::Rectangle
    }

    fn serialize_body(&self, order: ByteOrder, out: &mut Vec<u8>) {
        write_u32(order, self.width, out);
        write_u32(order, self.height, out);
        assert(out@ =~= old(out)@ + self.spec_fixed().spec_body(order));
    }

    fn deserialize_body(order: ByteOrder, input: &[u8], at: usize) -> (r: Option<Self>) {
        if fits(input, at, 8) {
            let width = read_u32(order, input, at);
            let height = read_u32(order, input, at + 4);
            proof {
                super::wire::lemma_u32_window(order, input@, at as int);
                super::wire::lemma_u32_same(
                    order,
                    input@.subrange(at + 4, at + 8),
                    input@.skip(at as int).skip(4),
                );
            }
            Some(Rectangle { width, height })
        } else {
            None
        }
    }
}

/// Serialize into a `Fraction` type pod.
impl CanonicalFixedSizedPod for Fraction {
    open spec fn spec_kind() -> Kind {
        Kind::Fraction
    }

    open spec fn spec_fixed(&self) -> Fixed {
        Fixed::Fraction(self.num, self.denom)
    }

    open spec fn spec_of_fixed(value: Fixed) -> Self {
        Fraction { num: value->Fraction_0, denom: value->Fraction_1 }
    }

    proof fn lemma_fixed(&self) {
    }

    fn kind() -> (r: Kind) {
        Kind::Fraction
    }

    fn serialize_body(&self, order: ByteOrder, out: &mut Vec<u8>) {
        write_u32(order, self.num, out);
        write_u32(order, self.denom, out);
        assert(out@ =~= old(out)@ + self.spec_fixed().spec_body(order));
    }

    fn deserialize_body(order: ByteOrder, input: &[u8], at: usize) -> (r: Option<Self>) {
        if fits(input, at, 8) {
            let num = read_u32(order, input, at);
            let denom = read_u32(order, input, at + 4);
            proof {
                super::wire::lemma_u32_window(order, input@, at as int);
                super::wire::lemma_u32_same(
                    order,
                    input@.subrange(at + 4, at + 8),
                    input@.skip(at as int).skip(4),
                );
            }
            Some(Fraction { num, denom })
        } else {
            None
        }
    }
}

/// Serialize into a `Id` type pod.
impl CanonicalFixedSizedPod for Id {
    open spec fn spec_kind() -> Kind {
        Kind::Id
    }

    open spec fn spec_fixed(&self) -> Fixed {
        Fixed::Id(self.0)
    }

    open spec fn spec_of_fixed(value: Fixed) -> Self {
        Id(value->Id_0)
    }

    proof fn lemma_fixed(&self) {
    }

    fn kind() -> (r: Kind) {
        Kind::Id
    }

    fn serialize_body(&self, order: ByteOrder, out: &mut Vec<u8>) {
        write_u32(order, self.0, out);
    }

    fn deserialize_body(order: ByteOrder, input: &[u8], at: usize) -> (r: Option<Self>) {
        if fits(input, at, 4) {
            let raw = read_u32(order, input, at);
            proof {
                super::wire::lemma_u32_window(order, input@, at as int);
            }
            Some(Id(raw))
        } else {
            None
        }
    }
}

/// Serialize into a `Fd` type pod.
impl CanonicalFixedSizedPod for Fd {
    open spec fn spec_kind() -> Kind {
        Kind::Fd
    }

    open spec fn spec_fixed(&self) -> Fixed {
        Fixed::Fd(self.0)
    }

    open spec fn spec_of_fixed(value: Fixed) -> Self {
        Fd(value->Fd_0)
    }

    proof fn lemma_fixed(&self) {
    }

    fn kind() -> (r: Kind) {
        Kind::Fd
    }

    fn serialize_body(&self, order: ByteOrder, out: &mut Vec<u8>) {
        write_u64(order, i64_bits(self.0), out);
    }

    fn deserialize_body(order: ByteOrder, input: &[u8], at: usize) -> (r: Option<Self>) {
        if fits(input, at, 8) {
            let raw = read_u64(order, input, at);
            proof {
                super::wire::lemma_u64_window(order, input@, at as int);
            }
            Some(Fd(i64_from_bits(raw)))
        } else {
            None
        }
    }
}

/// Implementors of this trait can be serialized into pods that always have
/// the same size. This lets them be used as elements in arrays.
///
/// Serialization is accomplished by having the type convert itself into and
/// from the canonical representation of this pod, for example `i32` for a
/// pod of integers. That type then takes care of the actual serialization.
///
/// See the [`CanonicalFixedSizedPod`] trait for a list of possible target
/// types.
pub trait FixedSizedPod: Sized {
    /// The canonical representation of the type of pod that `Self` is
    /// serialized to and deserialized from.
    type CanonicalType: CanonicalFixedSizedPod;

    /// Whether `canonical` is what `self` converts to. An implementor that
    /// does not say is taken to convert to anything.
    open spec fn spec_converts(&self, canonical: Self::CanonicalType) -> bool {
        true
    }

    /// Convert `self` to the canonical type.
    fn as_canonical_type(&self) -> (r: Self::CanonicalType)
        ensures
            self.spec_converts(r),
    ;

    /// Whether `converted` is what `canonical` converts to. An implementor
    /// that does not say is taken to convert to anything.
    open spec fn spec_converts_from(canonical: Self::CanonicalType, converted: Self) -> bool {
        true
    }

    /// Convert the canonical type to `Self`.
    fn from_canonical_type(canonical: &Self::CanonicalType) -> (r: Self)
        ensures
            Self::spec_converts_from(*canonical, r),
    ;
}

impl<T: CanonicalFixedSizedPod + Copy> FixedSizedPod for T {
    type CanonicalType = Self;

    open spec fn spec_converts(&self, canonical: Self::CanonicalType) -> bool {
        canonical == *self
    }

    fn as_canonical_type(&self) -> (r: Self::CanonicalType) {
        *self
    }

    open spec fn spec_converts_from(canonical: Self::CanonicalType, converted: Self) -> bool {
        converted == canonical
    }

    fn from_canonical_type(canonical: &Self::CanonicalType) -> (r: Self) {
        *canonical
    }
}

} // verus!
