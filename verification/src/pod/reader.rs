//! A read-only view of a pod in borrowed bytes.
//!
//! A [`Pod`] is only made of bytes that hold the whole pod: its header, its
//! body of the size that the header states, and its padding. Every accessor
//! relies on that, so none of them looks past the bytes.

use vstd::prelude::*;
use vstd::slice::slice_subrange;

use super::canonical::CanonicalFixedSizedPod;
use super::deserialize::{parse_body, pod_bounds, spec_value_read};
use super::model::{
    spec_bounds, spec_parse_body, DeserializeError, Fixed, Kind, SPA_TYPE_ARRAY, SPA_TYPE_BITMAP,
    SPA_TYPE_BOOL, SPA_TYPE_BYTES, SPA_TYPE_CHOICE, SPA_TYPE_DOUBLE, SPA_TYPE_FD, SPA_TYPE_FLOAT,
    SPA_TYPE_FRACTION, SPA_TYPE_ID, SPA_TYPE_INT, SPA_TYPE_LONG, SPA_TYPE_NONE, SPA_TYPE_OBJECT,
    SPA_TYPE_POINTER, SPA_TYPE_RECTANGLE, SPA_TYPE_SEQUENCE, SPA_TYPE_STRING, SPA_TYPE_STRUCT,
};
use super::value::Value;
use super::wire::{
    lemma_header_read_back, lemma_u32_same, lemma_u64_same, read_u32, read_u64, spec_header,
    spec_u32_from_bytes, spec_u64_from_bytes, ByteOrder,
};
use crate::utils::{Double, Fd, Float, Fraction, Id, Rectangle, SpaTypes};

verus! {

/// What a [`Pod`] shows: a type and a body, in a byte order.
pub struct PodView {
    /// The order in which integers stand in the body.
    pub order: ByteOrder,
    /// The type tag of the header.
    pub type_: u32,
    /// The body: as many bytes as the header states.
    pub body: Seq<u8>,
}

impl PodView {
    /// The bytes of the pod: its header, which states the size of the body
    /// and the type, and its body. The padding is not among them.
    pub open spec fn spec_bytes(self) -> Seq<u8> {
        spec_header(self.order, self.body.len() as u32, self.type_) + self.body
    }
}

/// A pod in borrowed bytes.
#[derive(Debug, Copy, Clone)]
pub struct Pod<'a> {
    order: ByteOrder,
    type_: u32,
    bytes: &'a [u8],
}

/// What a typed accessor returns for a pod: the value of the kind, if the
/// pod is of the kind's type and its body of the kind's size.
pub open spec fn spec_get_fixed(pod: PodView, kind: Kind) -> Result<Fixed, DeserializeError> {
    if pod.type_ != kind.spec_type() {
        Err(DeserializeError::TypeMismatch)
    } else if pod.body.len() != kind.spec_size() {
        Err(DeserializeError::SizeMismatch)
    } else {
        Ok(Fixed::spec_from_body(pod.order, kind, pod.body))
    }
}

/// The result of a typed accessor, in the model.
pub open spec fn spec_fixed_read<T: CanonicalFixedSizedPod>(r: Result<T, DeserializeError>) -> Result<
    Fixed,
    DeserializeError,
> {
    match r {
        Ok(value) => Ok(value.spec_fixed()),
        Err(e) => Err(e),
    }
}

impl<'a> View for Pod<'a> {
    type V = PodView;

    closed spec fn view(&self) -> PodView {
        PodView { order: self.order, type_: self.type_, body: self.bytes@.skip(8) }
    }
}

impl<'a> Pod<'a> {
    /// What holds of every pod: its bytes are its header and its body, and
    /// the header states the size of the body and the type.
    #[verifier::type_invariant]
    closed spec fn inv(self) -> bool {
        &&& self.bytes@.len() >= 8
        &&& self.bytes@.len() - 8 <= u32::MAX
        &&& self.bytes@.take(8) == spec_header(
            self.order,
            (self.bytes@.len() - 8) as u32,
            self.type_,
        )
    }

    /// The bytes of the pod: its header and its body.
    pub open spec fn spec_bytes(&self) -> Seq<u8> {
        self@.spec_bytes()
    }

    /// The pod at the front of `bytes`, in the given byte order.
    ///
    /// The bytes must hold the entire pod: the header, the body of the size
    /// that the header states, and the padding to a multiple of 8.
    pub fn from_bytes_with_order(order: ByteOrder, bytes: &'a [u8]) -> (r: Option<Self>)
        ensures
            r is Some <==> spec_bounds(order, bytes@) is Ok,
            r is Some ==> r->0@ == (PodView {
                order,
                type_: spec_bounds(order, bytes@)->Ok_0.type_,
                body: bytes@.subrange(8, 8 + spec_bounds(order, bytes@)->Ok_0.size),
            }),
            r is Some ==> r->0.spec_bytes() == bytes@.take(8 + spec_bounds(order, bytes@)->Ok_0.size),
    {
        let len = bytes.len();
        proof {
            assert(bytes@.subrange(0, len as int) =~= bytes@);
        }
        match pod_bounds(order, bytes, 0, len) {
            Ok((type_, size, total)) => {
                let own = slice_subrange(bytes, 0, 8 + size);
                proof {
                    lemma_header_read_back(order, bytes@);
                    assert(own@.skip(8) =~= bytes@.subrange(8, 8 + size));
                    assert(own@.take(8) =~= bytes@.take(8));
                    assert(own@ =~= own@.take(8) + own@.skip(8));
                }
                Some(Pod { order, type_, bytes: own })
            },
            Err(_) => None,
        }
    }

    /// The pod at the front of `bytes`, in the byte order of this machine.
    ///
    /// The bytes must hold the entire pod: the header, the body of the size
    /// that the header states, and the padding to a multiple of 8.
    pub fn from_bytes(bytes: &'a [u8]) -> (r: Option<Self>)
        ensures
            spec_bounds(ByteOrder::Little, bytes@) is Ok && spec_bounds(ByteOrder::Big, bytes@)
                is Ok ==> r is Some,
            spec_bounds(ByteOrder::Little, bytes@) is Err && spec_bounds(ByteOrder::Big, bytes@)
                is Err ==> r is None,
            r is Some ==> spec_bounds(r->0@.order, bytes@) is Ok && r->0@ == (PodView {
                order: r->0@.order,
                type_: spec_bounds(r->0@.order, bytes@)->Ok_0.type_,
                body: bytes@.subrange(8, 8 + spec_bounds(r->0@.order, bytes@)->Ok_0.size),
            }),
            r is Some ==> r->0.spec_bytes() == bytes@.take(
                8 + spec_bounds(r->0@.order, bytes@)->Ok_0.size,
            ),
    {
        Self::from_bytes_with_order(ByteOrder::native(), bytes)
    }

    /// The header and the body of the pod.
    pub fn as_bytes(&self) -> (r: &'a [u8])
        ensures
            r@ == self.spec_bytes(),
            r@.len() == 8 + self@.body.len(),
            r@.skip(8) == self@.body,
            self@.body.len() <= u32::MAX,
    {
        proof {
            use_type_invariant(self);
            assert(self.bytes@ =~= self.bytes@.take(8) + self.bytes@.skip(8));
        }
        self.bytes
    }

    /// The body of the pod.
    pub fn body(&self) -> (r: &'a [u8])
        ensures
            r@ == self@.body,
    {
        proof {
            use_type_invariant(self);
        }
        let len = self.bytes.len();
        let body = slice_subrange(self.bytes, 8, len);
        assert(body@ =~= self.bytes@.skip(8));
        body
    }

    /// The order in which integers stand in the body.
    pub fn order(&self) -> (r: ByteOrder)
        ensures
            r == self@.order,
    {
        self.order
    }

    /// The type of the pod.
    pub fn type_(&self) -> (r: SpaTypes)
        ensures
            r.0 == self@.type_,
    {
        SpaTypes(self.type_)
    }

    /// The size of the body of the pod.
    pub fn size(&self) -> (r: u32)
        ensures
            r == self@.body.len(),
    {
        proof {
            use_type_invariant(self);
        }
        (self.bytes.len() - 8) as u32
    }

    /// The value that the pod holds.
    pub fn value(&self) -> (r: Result<Value, DeserializeError>)
        ensures
            spec_value_read(r) == spec_parse_body(self@.order, self@.type_, self@.body),
    {
        proof {
            use_type_invariant(self);
        }
        let len = self.bytes.len();
        proof {
            assert(self.bytes@.subrange(8, len as int) =~= self.bytes@.skip(8));
        }
        parse_body(self.order, self.bytes, self.type_, 8, len)
    }

    /// The value of a fixed-size kind that the pod holds, if the pod is of
    /// that kind.
    pub fn get_fixed<T: CanonicalFixedSizedPod>(&self) -> (r: Result<T, DeserializeError>)
        ensures
            spec_fixed_read(r) == spec_get_fixed(self@, T::spec_kind()),
    {
        proof {
            use_type_invariant(self);
        }
        let kind = T::kind();
        if self.type_ != kind.type_() {
            return Err(DeserializeError::TypeMismatch);
        }
        if self.bytes.len() - 8 != kind.size() as usize {
            return Err(DeserializeError::SizeMismatch);
        }
        match T::deserialize_body(self.order, self.bytes, 8) {
            Some(value) => Ok(value),
            None => Err(DeserializeError::SizeMismatch),
        }
    }

    /// Whether the pod holds no value.
    pub fn is_none(&self) -> (r: bool)
        ensures
            r <==> self@.type_ == SPA_TYPE_NONE,
    {
        self.type_ == SPA_TYPE_NONE
    }

    /// Whether the pod is a boolean.
    pub fn is_bool(&self) -> (r: bool)
        ensures
            r <==> self@.type_ == SPA_TYPE_BOOL,
    {
        self.type_ == SPA_TYPE_BOOL
    }

    /// The boolean that the pod holds: whether its integer is not zero.
    pub fn get_bool(&self) -> (r: Result<bool, DeserializeError>)
        ensures
            spec_fixed_read(r) == spec_get_fixed(self@, Kind::Bool),
    {
        self.get_fixed()
    }

    /// Whether the pod is an enumerated value.
    pub fn is_id(&self) -> (r: bool)
        ensures
            r <==> self@.type_ == SPA_TYPE_ID,
    {
        self.type_ == SPA_TYPE_ID
    }

    /// The enumerated value that the pod holds.
    pub fn get_id(&self) -> (r: Result<Id, DeserializeError>)
        ensures
            spec_fixed_read(r) == spec_get_fixed(self@, Kind::Id),
    {
        self.get_fixed()
    }

    /// Whether the pod is a 32 bits integer.
    pub fn is_int(&self) -> (r: bool)
        ensures
            r <==> self@.type_ == SPA_TYPE_INT,
    {
        self.type_ == SPA_TYPE_INT
    }

    /// The 32 bits integer that the pod holds.
    pub fn get_int(&self) -> (r: Result<i32, DeserializeError>)
        ensures
            spec_fixed_read(r) == spec_get_fixed(self@, Kind::Int),
    {
        self.get_fixed()
    }

    /// Whether the pod is a 64 bits integer.
    pub fn is_long(&self) -> (r: bool)
        ensures
            r <==> self@.type_ == SPA_TYPE_LONG,
    {
        self.type_ == SPA_TYPE_LONG
    }

    /// The 64 bits integer that the pod holds.
    pub fn get_long(&self) -> (r: Result<i64, DeserializeError>)
        ensures
            spec_fixed_read(r) == spec_get_fixed(self@, Kind::Long),
    {
        self.get_fixed()
    }

    /// Whether the pod is a 32 bits floating point number.
    pub fn is_float(&self) -> (r: bool)
        ensures
            r <==> self@.type_ == SPA_TYPE_FLOAT,
    {
        self.type_ == SPA_TYPE_FLOAT
    }

    /// The 32 bits floating point number that the pod holds.
    pub fn get_float(&self) -> (r: Result<Float, DeserializeError>)
        ensures
            spec_fixed_read(r) == spec_get_fixed(self@, Kind::Float),
    {
        self.get_fixed()
    }

    /// Whether the pod is a 64 bits floating point number.
    pub fn is_double(&self) -> (r: bool)
        ensures
            r <==> self@.type_ == SPA_TYPE_DOUBLE,
    {
        self.type_ == SPA_TYPE_DOUBLE
    }

    /// The 64 bits floating point number that the pod holds.
    pub fn get_double(&self) -> (r: Result<Double, DeserializeError>)
        ensures
            spec_fixed_read(r) == spec_get_fixed(self@, Kind::Double),
    {
        self.get_fixed()
    }

    /// Whether the pod is a string.
    pub fn is_string(&self) -> (r: bool)
        ensures
            r <==> self@.type_ == SPA_TYPE_STRING,
    {
        self.type_ == SPA_TYPE_STRING
    }

    /// The text that the pod holds: the bytes of its body before the first
    /// zero byte, borrowed. There must be a zero byte, and the bytes before
    /// it must be UTF-8.
    pub fn get_string(&self) -> (r: Result<&'a str, DeserializeError>)
        ensures
            self@.type_ != SPA_TYPE_STRING ==> r == Err::<&str, DeserializeError>(
                DeserializeError::TypeMismatch,
            ),
            self@.type_ == SPA_TYPE_STRING ==> match r {
                Ok(text) => super::model::spec_parse_string(self@.body) == Ok::<
                    Seq<char>,
                    DeserializeError,
                >(text@),
                Err(e) => super::model::spec_parse_string(self@.body) == Err::<
                    Seq<char>,
                    DeserializeError,
                >(e),
            },
    {
        proof {
            use_type_invariant(self);
        }
        if self.type_ != SPA_TYPE_STRING {
            return Err(DeserializeError::TypeMismatch);
        }
        let len = self.bytes.len();
        proof {
            assert(self.bytes@.subrange(8, len as int) =~= self.bytes@.skip(8));
        }
        super::deserialize::parse_str(self.bytes, 8, len)
    }

    /// The bytes of the string that the pod holds: those of its body before
    /// the first zero byte, borrowed. There must be a zero byte.
    pub fn get_string_raw(&self) -> (r: Result<&'a [u8], DeserializeError>)
        ensures
            self@.type_ != SPA_TYPE_STRING ==> r == Err::<&[u8], DeserializeError>(
                DeserializeError::TypeMismatch,
            ),
            self@.type_ == SPA_TYPE_STRING ==> match r {
                Ok(bytes) => super::model::spec_parse_cstr(self@.body) == Ok::<
                    Seq<u8>,
                    DeserializeError,
                >(bytes@),
                Err(e) => super::model::spec_parse_cstr(self@.body) == Err::<
                    Seq<u8>,
                    DeserializeError,
                >(e),
            },
    {
        proof {
            use_type_invariant(self);
        }
        if self.type_ != SPA_TYPE_STRING {
            return Err(DeserializeError::TypeMismatch);
        }
        let len = self.bytes.len();
        proof {
            assert(self.bytes@.subrange(8, len as int) =~= self.bytes@.skip(8));
        }
        super::deserialize::parse_cstr(self.bytes, 8, len)
    }

    /// Whether the pod is a byte array.
    pub fn is_bytes(&self) -> (r: bool)
        ensures
            r <==> self@.type_ == SPA_TYPE_BYTES,
    {
        self.type_ == SPA_TYPE_BYTES
    }

    /// The bytes that the pod holds: its body, borrowed.
    pub fn get_bytes(&self) -> (r: Result<&'a [u8], DeserializeError>)
        ensures
            self@.type_ == SPA_TYPE_BYTES ==> r is Ok && r->Ok_0@ == self@.body,
            self@.type_ != SPA_TYPE_BYTES ==> r == Err::<&[u8], DeserializeError>(
                DeserializeError::TypeMismatch,
            ),
    {
        if self.type_ != SPA_TYPE_BYTES {
            return Err(DeserializeError::TypeMismatch);
        }
        Ok(self.body())
    }

    /// Whether the pod is a pointer.
    pub fn is_pointer(&self) -> (r: bool)
        ensures
            r <==> self@.type_ == SPA_TYPE_POINTER,
    {
        self.type_ == SPA_TYPE_POINTER
    }

    /// The pointer that the pod holds: its address, and the type of what it
    /// points to.
    pub fn get_pointer(&self) -> (r: Result<(u64, Id), DeserializeError>)
        ensures
            self@.type_ != SPA_TYPE_POINTER ==> r == Err::<(u64, Id), DeserializeError>(
                DeserializeError::TypeMismatch,
            ),
            self@.type_ == SPA_TYPE_POINTER && self@.body.len() != 16 ==> r == Err::<
                (u64, Id),
                DeserializeError,
            >(DeserializeError::SizeMismatch),
            self@.type_ == SPA_TYPE_POINTER && self@.body.len() == 16 ==> r == Ok::<
                (u64, Id),
                DeserializeError,
            >(
                (
                    spec_u64_from_bytes(self@.order, self@.body.skip(8)),
                    Id(spec_u32_from_bytes(self@.order, self@.body)),
                ),
            ),
    {
        proof {
            use_type_invariant(self);
        }
        if self.type_ != SPA_TYPE_POINTER {
            return Err(DeserializeError::TypeMismatch);
        }
        if self.bytes.len() != 24 {
            return Err(DeserializeError::SizeMismatch);
        }
        let pointee = read_u32(self.order, self.bytes, 8);
        let address = read_u64(self.order, self.bytes, 16);
        proof {
            lemma_u32_same(self.order, self.bytes@.subrange(8, 12), self@.body);
            lemma_u64_same(self.order, self.bytes@.subrange(16, 24), self@.body.skip(8));
        }
        Ok((address, Id(pointee)))
    }

    /// Whether the pod is a file descriptor.
    pub fn is_fd(&self) -> (r: bool)
        ensures
            r <==> self@.type_ == SPA_TYPE_FD,
    {
        self.type_ == SPA_TYPE_FD
    }

    /// The file descriptor that the pod holds.
    pub fn get_fd(&self) -> (r: Result<Fd, DeserializeError>)
        ensures
            spec_fixed_read(r) == spec_get_fixed(self@, Kind::Fd),
    {
        self.get_fixed()
    }

    /// Whether the pod is a rectangle.
    pub fn is_rectangle(&self) -> (r: bool)
        ensures
            r <==> self@.type_ == SPA_TYPE_RECTANGLE,
    {
        self.type_ == SPA_TYPE_RECTANGLE
    }

    /// The rectangle that the pod holds.
    pub fn get_rectangle(&self) -> (r: Result<Rectangle, DeserializeError>)
        ensures
            spec_fixed_read(r) == spec_get_fixed(self@, Kind::Rectangle),
    {
        self.get_fixed()
    }

    /// Whether the pod is a fraction.
    pub fn is_fraction(&self) -> (r: bool)
        ensures
            r <==> self@.type_ == SPA_TYPE_FRACTION,
    {
        self.type_ == SPA_TYPE_FRACTION
    }

    /// The fraction that the pod holds.
    pub fn get_fraction(&self) -> (r: Result<Fraction, DeserializeError>)
        ensures
            spec_fixed_read(r) == spec_get_fixed(self@, Kind::Fraction),
    {
        self.get_fixed()
    }

    /// Whether the pod is a bitmap.
    pub fn is_bitmap(&self) -> (r: bool)
        ensures
            r <==> self@.type_ == SPA_TYPE_BITMAP,
    {
        self.type_ == SPA_TYPE_BITMAP
    }

    /// Whether the pod is an array: its body begins with the size and the
    /// type of its elements.
    pub fn is_array(&self) -> (r: bool)
        ensures
            r <==> self@.type_ == SPA_TYPE_ARRAY && self@.body.len() >= 8,
    {
        proof {
            use_type_invariant(self);
        }
        self.type_ == SPA_TYPE_ARRAY && self.bytes.len() >= 16
    }

    /// Whether the pod is a choice: its body begins with the sort and the
    /// flags of the choice, and the size and the type of its values.
    pub fn is_choice(&self) -> (r: bool)
        ensures
            r <==> self@.type_ == SPA_TYPE_CHOICE && self@.body.len() >= 16,
    {
        proof {
            use_type_invariant(self);
        }
        self.type_ == SPA_TYPE_CHOICE && self.bytes.len() >= 24
    }

    /// Whether the pod is a struct.
    pub fn is_struct(&self) -> (r: bool)
        ensures
            r <==> self@.type_ == SPA_TYPE_STRUCT,
    {
        self.type_ == SPA_TYPE_STRUCT
    }

    /// Whether the pod is an object: its body begins with the type and the
    /// id of the object.
    pub fn is_object(&self) -> (r: bool)
        ensures
            r <==> self@.type_ == SPA_TYPE_OBJECT && self@.body.len() >= 8,
    {
        proof {
            use_type_invariant(self);
        }
        self.type_ == SPA_TYPE_OBJECT && self.bytes.len() >= 16
    }

    /// Whether the pod is a sequence: its body begins with the unit of the
    /// sequence.
    pub fn is_sequence(&self) -> (r: bool)
        ensures
            r <==> self@.type_ == SPA_TYPE_SEQUENCE && self@.body.len() >= 8,
    {
        proof {
            use_type_invariant(self);
        }
        self.type_ == SPA_TYPE_SEQUENCE && self.bytes.len() >= 16
    }
}

} // verus!
