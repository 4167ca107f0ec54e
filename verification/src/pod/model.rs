//! The mathematical model of pods: what a value is, which bytes encode it,
//! and which value a sequence of bytes decodes to.
//!
//! Everything here is specification. The builder, the serializer and the
//! deserializer state their contracts over these functions, and the laws in
//! [`crate::pod::laws`] relate them to each other.

use vstd::prelude::*;
use vstd::utf8::{decode_utf8, encode_utf8, valid_utf8};

use super::wire::{
    spec_header, spec_i32_bits, spec_i32_from_bits, spec_i64_bits, spec_i64_from_bits, spec_padding,
    spec_pod, spec_u32_bytes, spec_u32_from_bytes, spec_u64_bytes, spec_u64_from_bytes, ByteOrder,
};

verus! {

/// The type of pods that hold no value.
pub const SPA_TYPE_NONE: u32 = 1;

/// The type of pods that hold a boolean.
pub const SPA_TYPE_BOOL: u32 = 2;

/// The type of pods that hold an enumerated value.
pub const SPA_TYPE_ID: u32 = 3;

/// The type of pods that hold a 32 bits integer.
pub const SPA_TYPE_INT: u32 = 4;

/// The type of pods that hold a 64 bits integer.
pub const SPA_TYPE_LONG: u32 = 5;

/// The type of pods that hold a 32 bits floating point number.
pub const SPA_TYPE_FLOAT: u32 = 6;

/// The type of pods that hold a 64 bits floating point number.
pub const SPA_TYPE_DOUBLE: u32 = 7;

/// The type of pods that hold a string.
pub const SPA_TYPE_STRING: u32 = 8;

/// The type of pods that hold a byte array.
pub const SPA_TYPE_BYTES: u32 = 9;

/// The type of pods that hold a rectangle.
pub const SPA_TYPE_RECTANGLE: u32 = 10;

/// The type of pods that hold a fraction.
pub const SPA_TYPE_FRACTION: u32 = 11;

/// The type of pods that hold a bitmap.
pub const SPA_TYPE_BITMAP: u32 = 12;

/// The type of pods that hold an array.
pub const SPA_TYPE_ARRAY: u32 = 13;

/// The type of pods that hold a struct.
pub const SPA_TYPE_STRUCT: u32 = 14;

/// The type of pods that hold an object.
pub const SPA_TYPE_OBJECT: u32 = 15;

/// The type of pods that hold a sequence.
pub const SPA_TYPE_SEQUENCE: u32 = 16;

/// The type of pods that hold a pointer.
pub const SPA_TYPE_POINTER: u32 = 17;

/// The type of pods that hold a file descriptor.
pub const SPA_TYPE_FD: u32 = 18;

/// The type of pods that hold a choice.
pub const SPA_TYPE_CHOICE: u32 = 19;

/// The type of pods that hold any pod.
pub const SPA_TYPE_POD: u32 = 20;

/// A choice of one value only.
pub const SPA_CHOICE_NONE: u32 = 0;

/// A choice of a range: default, minimum, maximum.
pub const SPA_CHOICE_RANGE: u32 = 1;

/// A choice of a range with a step: default, minimum, maximum, step.
pub const SPA_CHOICE_STEP: u32 = 2;

/// A choice of listed values: default, alternatives.
pub const SPA_CHOICE_ENUM: u32 = 3;

/// A choice of flags: default, possible flags.
pub const SPA_CHOICE_FLAGS: u32 = 4;

/// The kinds of pod whose body has a fixed size. Arrays and choices hold
/// elements of one such kind.
#[derive(Debug, Copy, Clone, Eq, PartialEq, Structural)]
pub enum Kind {
    /// No value: a body of no bytes.
    Null,
    /// A boolean, held as a 32 bits integer.
    Bool,
    /// An enumerated value, a 32 bits integer.
    Id,
    /// A 32 bits integer.
    Int,
    /// A 64 bits integer.
    Long,
    /// A 32 bits floating point number.
    Float,
    /// A 64 bits floating point number.
    Double,
    /// A rectangle: width and height, 32 bits each.
    Rectangle,
    /// A fraction: numerator and denominator, 32 bits each.
    Fraction,
    /// A file descriptor, held as a 64 bits integer.
    Fd,
}

/// A value of a fixed-size kind. Floating point numbers stand as their bits.
pub enum Fixed {
    /// No value.
    Null,
    /// A boolean.
    Bool(bool),
    /// An enumerated value.
    Id(u32),
    /// A 32 bits integer.
    Int(i32),
    /// A 64 bits integer.
    Long(i64),
    /// The bits of a 32 bits floating point number.
    Float(u32),
    /// The bits of a 64 bits floating point number.
    Double(u64),
    /// A rectangle: width, height.
    Rectangle(u32, u32),
    /// A fraction: numerator, denominator.
    Fraction(u32, u32),
    /// A file descriptor.
    Fd(i64),
}

/// The alternatives of a choice.
pub enum ChoiceEnumView {
    /// No choice: a single value.
    NoChoice(Fixed),
    /// A range: default, minimum, maximum.
    Range(Fixed, Fixed, Fixed),
    /// A range with a step: default, minimum, maximum, step.
    Step(Fixed, Fixed, Fixed, Fixed),
    /// A list: default, alternatives.
    Enum(Fixed, Seq<Fixed>),
    /// Flags: default, possible flags.
    Flags(Fixed, Seq<Fixed>),
}

/// A choice: the kind of its values, its flags, and its alternatives.
pub struct ChoiceView {
    /// The kind of the values.
    pub kind: Kind,
    /// The bits of the flags.
    pub flags: u32,
    /// The alternatives.
    pub choice: ChoiceEnumView,
}

/// A property of an object.
pub struct PropertyView {
    /// The key.
    pub key: u32,
    /// The bits of the flags.
    pub flags: u32,
    /// The value.
    pub value: ValueView,
}

/// What a [`Value`](crate::pod::Value) is, with sequences in place of vectors.
pub enum ValueView {
    /// A value of a fixed-size kind.
    Fixed(Fixed),
    /// A string.
    String(Seq<char>),
    /// A byte array.
    Bytes(Seq<u8>),
    /// An array: the kind of its elements, and the elements.
    Array(Kind, Seq<Fixed>),
    /// A struct: its fields.
    Struct(Seq<ValueView>),
    /// An object: its type, its id, and its properties.
    Object(u32, u32, Seq<PropertyView>),
    /// A choice.
    Choice(ChoiceView),
    /// A pointer: the type of what it points to, and its address.
    Pointer(u32, u64),
}

/// Why bytes could not be read as a value.
#[derive(Debug, Copy, Clone, Eq, PartialEq, Structural)]
pub enum DeserializeError {
    /// Fewer bytes are there than the header, the body or the padding needs.
    Truncated,
    /// The pod's type is not the one that was asked for.
    TypeMismatch,
    /// The length of the body does not fit the pod's type.
    SizeMismatch,
    /// The pod's type, or the type of its elements, is none that a value can have.
    UnsupportedType,
    /// A string without a terminating zero byte.
    MissingTerminator,
    /// A string that is not UTF-8.
    InvalidUtf8,
    /// A choice of an unknown sort.
    InvalidChoiceType,
    /// A choice with fewer values than its sort needs.
    MissingChoiceValues,
    /// The object is not of the type that was asked for.
    ObjectTypeMismatch,
}

impl Kind {
    /// The type tag of pods of this kind.
    pub open spec fn spec_type(self) -> u32 {
        match self {
            Kind::Null => SPA_TYPE_NONE,
            Kind::Bool => SPA_TYPE_BOOL,
            Kind::Id => SPA_TYPE_ID,
            Kind::Int => SPA_TYPE_INT,
            Kind::Long => SPA_TYPE_LONG,
            Kind::Float => SPA_TYPE_FLOAT,
            Kind::Double => SPA_TYPE_DOUBLE,
            Kind::Rectangle => SPA_TYPE_RECTANGLE,
            Kind::Fraction => SPA_TYPE_FRACTION,
            Kind::Fd => SPA_TYPE_FD,
        }
    }

    /// The size of the body of pods of this kind.
    pub open spec fn spec_size(self) -> u32 {
        match self {
            Kind::Null => 0,
            Kind::Bool | Kind::Id | Kind::Int | Kind::Float => 4,
            Kind::Long | Kind::Double | Kind::Rectangle | Kind::Fraction | Kind::Fd => 8,
        }
    }

    /// The kind with the given type tag, if there is one.
    pub open spec fn spec_from_type(type_: u32) -> Option<Kind> {
        if type_ == SPA_TYPE_NONE {
            Some(Kind::Null)
        } else if type_ == SPA_TYPE_BOOL {
            Some(Kind::Bool)
        } else if type_ == SPA_TYPE_ID {
            Some(Kind::Id)
        } else if type_ == SPA_TYPE_INT {
            Some(Kind::Int)
        } else if type_ == SPA_TYPE_LONG {
            Some(Kind::Long)
        } else if type_ == SPA_TYPE_FLOAT {
            Some(Kind::Float)
        } else if type_ == SPA_TYPE_DOUBLE {
            Some(Kind::Double)
        } else if type_ == SPA_TYPE_RECTANGLE {
            Some(Kind::Rectangle)
        } else if type_ == SPA_TYPE_FRACTION {
            Some(Kind::Fraction)
        } else if type_ == SPA_TYPE_FD {
            Some(Kind::Fd)
        } else {
            None
        }
    }
}

impl Fixed {
    /// The kind of this value.
    pub open spec fn kind(self) -> Kind {
        match self {
            Fixed::Null => Kind::Null,
            Fixed::Bool(_) => Kind::Bool,
            Fixed::Id(_) => Kind::Id,
            Fixed::Int(_) => Kind::Int,
            Fixed::Long(_) => Kind::Long,
            Fixed::Float(_) => Kind::Float,
            Fixed::Double(_) => Kind::Double,
            Fixed::Rectangle(_, _) => Kind::Rectangle,
            Fixed::Fraction(_, _) => Kind::Fraction,
            Fixed::Fd(_) => Kind::Fd,
        }
    }

    /// The body of the pod that holds this value.
    pub open spec fn spec_body(self, order: ByteOrder) -> Seq<u8> {
        match self {
            Fixed::Null => Seq::empty(),
            Fixed::Bool(b) => spec_u32_bytes(order, if b { 1u32 } else { 0u32 }),
            Fixed::Id(x) => spec_u32_bytes(order, x),
            Fixed::Int(x) => spec_u32_bytes(order, spec_i32_bits(x)),
            Fixed::Long(x) => spec_u64_bytes(order, spec_i64_bits(x)),
            Fixed::Float(x) => spec_u32_bytes(order, x),
            Fixed::Double(x) => spec_u64_bytes(order, x),
            Fixed::Rectangle(w, h) => spec_u32_bytes(order, w) + spec_u32_bytes(order, h),
            Fixed::Fraction(n, d) => spec_u32_bytes(order, n) + spec_u32_bytes(order, d),
            Fixed::Fd(x) => spec_u64_bytes(order, spec_i64_bits(x)),
        }
    }

    /// The value of the given kind that a body holds. The body has at least
    /// the size of the kind.
    pub open spec fn spec_from_body(order: ByteOrder, kind: Kind, body: Seq<u8>) -> Fixed {
        match kind {
            Kind::Null => Fixed::Null,
            Kind::Bool => Fixed::Bool(spec_u32_from_bytes(order, body) != 0),
            Kind::Id => Fixed::Id(spec_u32_from_bytes(order, body)),
            Kind::Int => Fixed::Int(spec_i32_from_bits(spec_u32_from_bytes(order, body))),
            Kind::Long => Fixed::Long(spec_i64_from_bits(spec_u64_from_bytes(order, body))),
            Kind::Float => Fixed::Float(spec_u32_from_bytes(order, body)),
            Kind::Double => Fixed::Double(spec_u64_from_bytes(order, body)),
            Kind::Rectangle => Fixed::Rectangle(
                spec_u32_from_bytes(order, body),
                spec_u32_from_bytes(order, body.skip(4)),
            ),
            Kind::Fraction => Fixed::Fraction(
                spec_u32_from_bytes(order, body),
                spec_u32_from_bytes(order, body.skip(4)),
            ),
            Kind::Fd => Fixed::Fd(spec_i64_from_bits(spec_u64_from_bytes(order, body))),
        }
    }
}

/// The bodies of the given values, one after the other.
pub open spec fn spec_bodies(order: ByteOrder, values: Seq<Fixed>) -> Seq<u8>
    decreases values.len(),
{
    if values.len() == 0 {
        Seq::empty()
    } else {
        spec_bodies(order, values.drop_last()) + values.last().spec_body(order)
    }
}

/// The `count` values of one kind that stand one after the other in `bytes`.
pub open spec fn spec_values_from(
    order: ByteOrder,
    kind: Kind,
    bytes: Seq<u8>,
    count: nat,
) -> Seq<Fixed> {
    Seq::new(
        count,
        |i: int| Fixed::spec_from_body(order, kind, bytes.skip(i * kind.spec_size())),
    )
}

/// Whether every value is of the given kind.
pub open spec fn spec_all_of_kind(kind: Kind, values: Seq<Fixed>) -> bool {
    forall|i: int| 0 <= i < values.len() ==> (#[trigger] values[i]).kind() == kind
}

impl ChoiceEnumView {
    /// The number that says on the wire which sort of choice this is.
    pub open spec fn spec_type(self) -> u32 {
        match self {
            ChoiceEnumView::NoChoice(_) => SPA_CHOICE_NONE,
            ChoiceEnumView::Range(_, _, _) => SPA_CHOICE_RANGE,
            ChoiceEnumView::Step(_, _, _, _) => SPA_CHOICE_STEP,
            ChoiceEnumView::Enum(_, _) => SPA_CHOICE_ENUM,
            ChoiceEnumView::Flags(_, _) => SPA_CHOICE_FLAGS,
        }
    }

    /// The values of the choice in the order of the wire: the default first.
    pub open spec fn spec_values(self) -> Seq<Fixed> {
        match self {
            ChoiceEnumView::NoChoice(value) => seq![value],
            ChoiceEnumView::Range(default, min, max) => seq![default, min, max],
            ChoiceEnumView::Step(default, min, max, step) => seq![default, min, max, step],
            ChoiceEnumView::Enum(default, alternatives) => seq![default] + alternatives,
            ChoiceEnumView::Flags(default, flags) => seq![default] + flags,
        }
    }

    /// The choice of the given sort that the values make, the default first.
    pub open spec fn spec_from_values(
        choice_type: u32,
        values: Seq<Fixed>,
    ) -> Result<ChoiceEnumView, DeserializeError> {
        if choice_type == SPA_CHOICE_NONE {
            if values.len() < 1 {
                Err(DeserializeError::MissingChoiceValues)
            } else {
                Ok(ChoiceEnumView::NoChoice(values[0]))
            }
        } else if choice_type == SPA_CHOICE_RANGE {
            if values.len() < 3 {
                Err(DeserializeError::MissingChoiceValues)
            } else {
                Ok(ChoiceEnumView::Range(values[0], values[1], values[2]))
            }
        } else if choice_type == SPA_CHOICE_STEP {
            if values.len() < 4 {
                Err(DeserializeError::MissingChoiceValues)
            } else {
                Ok(ChoiceEnumView::Step(values[0], values[1], values[2], values[3]))
            }
        } else if choice_type == SPA_CHOICE_ENUM {
            if values.len() < 1 {
                Err(DeserializeError::MissingChoiceValues)
            } else {
                Ok(ChoiceEnumView::Enum(values[0], values.skip(1)))
            }
        } else if choice_type == SPA_CHOICE_FLAGS {
            if values.len() < 1 {
                Err(DeserializeError::MissingChoiceValues)
            } else {
                Ok(ChoiceEnumView::Flags(values[0], values.skip(1)))
            }
        } else {
            Err(DeserializeError::InvalidChoiceType)
        }
    }
}

/// Number of bytes before the first zero byte of `bytes`, or all of them.
pub open spec fn spec_cstr_len(bytes: Seq<u8>) -> nat
    decreases bytes.len(),
{
    if bytes.len() == 0 || bytes[0] == 0 {
        0
    } else {
        1 + spec_cstr_len(bytes.drop_first())
    }
}

impl ValueView {
    /// The type tag of the pod that holds this value.
    pub open spec fn spec_type(self) -> u32 {
        match self {
            ValueView::Fixed(value) => value.kind().spec_type(),
            ValueView::String(_) => SPA_TYPE_STRING,
            ValueView::Bytes(_) => SPA_TYPE_BYTES,
            ValueView::Array(_, _) => SPA_TYPE_ARRAY,
            ValueView::Struct(_) => SPA_TYPE_STRUCT,
            ValueView::Object(_, _, _) => SPA_TYPE_OBJECT,
            ValueView::Choice(_) => SPA_TYPE_CHOICE,
            ValueView::Pointer(_, _) => SPA_TYPE_POINTER,
        }
    }

    /// The body of the pod that holds this value.
    pub open spec fn spec_body(self, order: ByteOrder) -> Seq<u8>
        decreases self, 0nat,
    {
        match self {
            ValueView::Fixed(value) => value.spec_body(order),
            ValueView::String(text) => encode_utf8(text).push(0u8),
            ValueView::Bytes(bytes) => bytes,
            ValueView::Array(kind, elements) => spec_header(
                order,
                kind.spec_size(),
                kind.spec_type(),
            ) + spec_bodies(order, elements),
            ValueView::Struct(fields) => spec_encode_all(order, fields),
            ValueView::Object(type_, id, properties) => spec_u32_bytes(order, type_)
                + spec_u32_bytes(order, id) + spec_encode_properties(order, properties),
            ValueView::Choice(choice) => spec_u32_bytes(order, choice.choice.spec_type())
                + spec_u32_bytes(order, choice.flags) + spec_header(
                order,
                choice.kind.spec_size(),
                choice.kind.spec_type(),
            ) + spec_bodies(order, choice.choice.spec_values()),
            ValueView::Pointer(type_, address) => spec_u32_bytes(order, type_) + spec_u32_bytes(
                order,
                0,
            ) + spec_u64_bytes(order, address),
        }
    }

    /// The pod that holds this value: header, body and padding.
    pub open spec fn spec_encode(self, order: ByteOrder) -> Seq<u8>
        decreases self, 1nat,
    {
        spec_pod(order, self.spec_type(), self.spec_body(order))
    }
}

/// The pods of the given values, one after the other.
pub open spec fn spec_encode_all(order: ByteOrder, values: Seq<ValueView>) -> Seq<u8>
    decreases values, 0nat,
{
    if values.len() == 0 {
        Seq::empty()
    } else {
        spec_encode_all(order, values.drop_last()) + values.last().spec_encode(order)
    }
}

/// The given properties as they stand in the body of an object: for each, its
/// key, its flags, and the pod of its value.
pub open spec fn spec_encode_properties(order: ByteOrder, properties: Seq<PropertyView>) -> Seq<
    u8,
>
    decreases properties, 0nat,
{
    if properties.len() == 0 {
        Seq::empty()
    } else {
        let last = properties.last();
        spec_encode_properties(order, properties.drop_last()) + (spec_u32_bytes(order, last.key)
            + spec_u32_bytes(order, last.flags) + last.value.spec_encode(order))
    }
}

/// Where the pod at the front of some bytes begins and ends.
pub struct PodBounds {
    /// The type tag of the header.
    pub type_: u32,
    /// Size of the body, as the header states it.
    pub size: int,
    /// Size of header, body and padding together.
    pub total: int,
}

/// The bounds of the pod at the front of `bytes`. The header, the body and
/// the padding that the header asks for must all be there.
pub open spec fn spec_bounds(order: ByteOrder, bytes: Seq<u8>) -> Result<PodBounds, DeserializeError> {
    if bytes.len() < 8 {
        Err(DeserializeError::Truncated)
    } else {
        let size = spec_u32_from_bytes(order, bytes) as int;
        let total = 8 + size + spec_padding(size as nat);
        if total > bytes.len() {
            Err(DeserializeError::Truncated)
        } else {
            Ok(PodBounds { type_: spec_u32_from_bytes(order, bytes.skip(4)), size, total })
        }
    }
}

/// The bytes of the string that the body of a string pod holds: those
/// before the first zero byte, which must be there.
pub open spec fn spec_parse_cstr(body: Seq<u8>) -> Result<Seq<u8>, DeserializeError> {
    let len = spec_cstr_len(body);
    if body.len() == 0 {
        Err(DeserializeError::SizeMismatch)
    } else if len >= body.len() {
        Err(DeserializeError::MissingTerminator)
    } else {
        Ok(body.take(len as int))
    }
}

/// The string that the body of a string pod holds: the bytes before the
/// first zero byte, read as UTF-8.
pub open spec fn spec_parse_string(body: Seq<u8>) -> Result<Seq<char>, DeserializeError> {
    match spec_parse_cstr(body) {
        Err(e) => Err(e),
        Ok(bytes) => if !valid_utf8(bytes) {
            Err(DeserializeError::InvalidUtf8)
        } else {
            Ok(decode_utf8(bytes))
        },
    }
}

/// The elements that the body of an array pod holds.
pub open spec fn spec_parse_array(order: ByteOrder, body: Seq<u8>) -> Result<
    (Kind, Seq<Fixed>),
    DeserializeError,
> {
    if body.len() < 8 {
        Err(DeserializeError::SizeMismatch)
    } else {
        let child_size = spec_u32_from_bytes(order, body) as nat;
        let rest = (body.len() - 8) as nat;
        match Kind::spec_from_type(spec_u32_from_bytes(order, body.skip(4))) {
            None => Err(DeserializeError::UnsupportedType),
            Some(kind) => if child_size != kind.spec_size() {
                Err(DeserializeError::SizeMismatch)
            } else if child_size == 0 {
                if rest != 0 {
                    Err(DeserializeError::SizeMismatch)
                } else {
                    Ok((kind, Seq::empty()))
                }
            } else if rest % child_size != 0 {
                Err(DeserializeError::SizeMismatch)
            } else {
                Ok((kind, spec_values_from(order, kind, body.skip(8), rest / child_size)))
            },
        }
    }
}

/// The choice that the body of a choice pod holds.
pub open spec fn spec_parse_choice(order: ByteOrder, body: Seq<u8>) -> Result<
    ChoiceView,
    DeserializeError,
> {
    if body.len() < 16 {
        Err(DeserializeError::SizeMismatch)
    } else {
        let choice_type = spec_u32_from_bytes(order, body);
        let flags = spec_u32_from_bytes(order, body.skip(4));
        let child_size = spec_u32_from_bytes(order, body.skip(8)) as nat;
        let rest = (body.len() - 16) as nat;
        match Kind::spec_from_type(spec_u32_from_bytes(order, body.skip(12))) {
            None | Some(Kind::Null) => Err(DeserializeError::UnsupportedType),
            Some(kind) => if child_size != kind.spec_size() || rest % child_size != 0 {
                Err(DeserializeError::SizeMismatch)
            } else {
                match ChoiceEnumView::spec_from_values(
                    choice_type,
                    spec_values_from(order, kind, body.skip(16), rest / child_size),
                ) {
                    Err(e) => Err(e),
                    Ok(choice) => Ok(ChoiceView { kind, flags, choice }),
                }
            },
        }
    }
}

/// The value that a body holds, for a pod of the given type.
pub open spec fn spec_parse_body(order: ByteOrder, type_: u32, body: Seq<u8>) -> Result<
    ValueView,
    DeserializeError,
>
    decreases body.len(), 1nat,
{
    if Kind::spec_from_type(type_) is Some {
        let kind = Kind::spec_from_type(type_)->0;
        if body.len() != kind.spec_size() {
            Err(DeserializeError::SizeMismatch)
        } else {
            Ok(ValueView::Fixed(Fixed::spec_from_body(order, kind, body)))
        }
    } else if type_ == SPA_TYPE_STRING {
        match spec_parse_string(body) {
            Err(e) => Err(e),
            Ok(text) => Ok(ValueView::String(text)),
        }
    } else if type_ == SPA_TYPE_BYTES {
        Ok(ValueView::Bytes(body))
    } else if type_ == SPA_TYPE_ARRAY {
        match spec_parse_array(order, body) {
            Err(e) => Err(e),
            Ok((kind, elements)) => Ok(ValueView::Array(kind, elements)),
        }
    } else if type_ == SPA_TYPE_STRUCT {
        match spec_parse_all(order, body) {
            Err(e) => Err(e),
            Ok(fields) => Ok(ValueView::Struct(fields)),
        }
    } else if type_ == SPA_TYPE_OBJECT {
        if body.len() < 8 {
            Err(DeserializeError::SizeMismatch)
        } else {
            match spec_parse_properties(order, body.skip(8)) {
                Err(e) => Err(e),
                Ok(properties) => Ok(
                    ValueView::Object(
                        spec_u32_from_bytes(order, body),
                        spec_u32_from_bytes(order, body.skip(4)),
                        properties,
                    ),
                ),
            }
        }
    } else if type_ == SPA_TYPE_CHOICE {
        match spec_parse_choice(order, body) {
            Err(e) => Err(e),
            Ok(choice) => Ok(ValueView::Choice(choice)),
        }
    } else if type_ == SPA_TYPE_POINTER {
        if body.len() != 16 {
            Err(DeserializeError::SizeMismatch)
        } else {
            Ok(
                ValueView::Pointer(
                    spec_u32_from_bytes(order, body),
                    spec_u64_from_bytes(order, body.skip(8)),
                ),
            )
        }
    } else {
        Err(DeserializeError::UnsupportedType)
    }
}

/// The values whose pods stand one after the other in `bytes` and fill it.
pub open spec fn spec_parse_all(order: ByteOrder, bytes: Seq<u8>) -> Result<
    Seq<ValueView>,
    DeserializeError,
>
    decreases bytes.len(), 0nat,
{
    if bytes.len() == 0 {
        Ok(Seq::empty())
    } else {
        match spec_bounds(order, bytes) {
            Err(e) => Err(e),
            Ok(bounds) => match spec_parse_body(
                order,
                bounds.type_,
                bytes.subrange(8, 8 + bounds.size),
            ) {
                Err(e) => Err(e),
                Ok(first) => match spec_parse_all(order, bytes.skip(bounds.total)) {
                    Err(e) => Err(e),
                    Ok(rest) => Ok(seq![first] + rest),
                },
            },
        }
    }
}

/// The properties that stand one after the other in `bytes` and fill it.
pub open spec fn spec_parse_properties(order: ByteOrder, bytes: Seq<u8>) -> Result<
    Seq<PropertyView>,
    DeserializeError,
>
    decreases bytes.len(), 0nat,
{
    if bytes.len() == 0 {
        Ok(Seq::empty())
    } else if bytes.len() < 8 {
        Err(DeserializeError::Truncated)
    } else {
        match spec_bounds(order, bytes.skip(8)) {
            Err(e) => Err(e),
            Ok(bounds) => match spec_parse_body(
                order,
                bounds.type_,
                bytes.subrange(16, 16 + bounds.size),
            ) {
                Err(e) => Err(e),
                Ok(value) => match spec_parse_properties(
                    order,
                    bytes.skip(8 + bounds.total),
                ) {
                    Err(e) => Err(e),
                    Ok(rest) => Ok(
                        seq![
                            PropertyView {
                                key: spec_u32_from_bytes(order, bytes),
                                flags: spec_u32_from_bytes(order, bytes.skip(4)),
                                value,
                            },
                        ] + rest,
                    ),
                },
            },
        }
    }
}

/// The value whose pod stands at the front of `bytes`, with the size of
/// that pod.
pub open spec fn spec_parse(order: ByteOrder, bytes: Seq<u8>) -> Result<
    (ValueView, int),
    DeserializeError,
> {
    match spec_bounds(order, bytes) {
        Err(e) => Err(e),
        Ok(bounds) => match spec_parse_body(
            order,
            bounds.type_,
            bytes.subrange(8, 8 + bounds.size),
        ) {
            Err(e) => Err(e),
            Ok(value) => Ok((value, bounds.total)),
        },
    }
}

/// Why a value has no pod.
#[derive(Debug, Copy, Clone, Eq, PartialEq, Structural)]
pub enum SerializeError {
    /// A string holds a zero byte, which would end it early.
    InteriorNul,
    /// The body of a pod would be larger than its size field can say.
    TooLarge,
}

/// Whether one of the bytes is zero.
pub open spec fn spec_has_zero(bytes: Seq<u8>) -> bool {
    exists|i: int| 0 <= i < bytes.len() && bytes[i] == 0
}

impl ValueView {
    /// Whether arrays and choices hold values of their own kind only, and no
    /// choice is over values of the empty kind. What a
    /// [`Value`](crate::pod::Value) is always meets this.
    pub open spec fn spec_well_formed(self) -> bool
        decreases self, 0nat,
    {
        match self {
            ValueView::Array(kind, elements) => spec_all_of_kind(kind, elements),
            ValueView::Struct(fields) => forall|i: int|
                0 <= i < fields.len() ==> (#[trigger] fields[i]).spec_well_formed(),
            ValueView::Object(_, _, properties) => forall|i: int|
                0 <= i < properties.len() ==> (#[trigger] properties[i]).value.spec_well_formed(),
            ValueView::Choice(choice) => choice.kind != Kind::Null && spec_all_of_kind(
                choice.kind,
                choice.choice.spec_values(),
            ),
            _ => true,
        }
    }

    /// What stands in the way of encoding this value, if anything does: the
    /// first string with a zero byte or body beyond the size field of a pod,
    /// in the order in which the value is written.
    pub open spec fn spec_check(self, order: ByteOrder) -> Option<SerializeError>
        decreases self, 0nat,
    {
        match self {
            ValueView::Fixed(_) => None,
            ValueView::Pointer(_, _) => None,
            ValueView::String(text) => if spec_has_zero(encode_utf8(text)) {
                Some(SerializeError::InteriorNul)
            } else if encode_utf8(text).len() + 1 > u32::MAX {
                Some(SerializeError::TooLarge)
            } else {
                None
            },
            ValueView::Bytes(bytes) => if bytes.len() > u32::MAX {
                Some(SerializeError::TooLarge)
            } else {
                None
            },
            ValueView::Array(_, elements) => if 8 + spec_bodies(order, elements).len()
                > u32::MAX {
                Some(SerializeError::TooLarge)
            } else {
                None
            },
            ValueView::Struct(fields) => match spec_check_all(order, fields) {
                Some(e) => Some(e),
                None => if spec_encode_all(order, fields).len() > u32::MAX {
                    Some(SerializeError::TooLarge)
                } else {
                    None
                },
            },
            ValueView::Object(_, _, properties) => match spec_check_properties(
                order,
                properties,
            ) {
                Some(e) => Some(e),
                None => if 8 + spec_encode_properties(order, properties).len() > u32::MAX {
                    Some(SerializeError::TooLarge)
                } else {
                    None
                },
            },
            ValueView::Choice(choice) => if 16 + spec_bodies(
                order,
                choice.choice.spec_values(),
            ).len() > u32::MAX {
                Some(SerializeError::TooLarge)
            } else {
                None
            },
        }
    }
}

/// What stands in the way of encoding the first of the given values that
/// cannot be encoded.
pub open spec fn spec_check_all(order: ByteOrder, values: Seq<ValueView>) -> Option<
    SerializeError,
>
    decreases values, 0nat,
{
    if values.len() == 0 {
        None
    } else {
        match spec_check_all(order, values.drop_last()) {
            Some(e) => Some(e),
            None => values.last().spec_check(order),
        }
    }
}

/// What stands in the way of encoding the first of the given properties
/// whose value cannot be encoded.
pub open spec fn spec_check_properties(order: ByteOrder, properties: Seq<PropertyView>) -> Option<
    SerializeError,
>
    decreases properties, 0nat,
{
    if properties.len() == 0 {
        None
    } else {
        match spec_check_properties(order, properties.drop_last()) {
            Some(e) => Some(e),
            None => properties.last().value.spec_check(order),
        }
    }
}

impl ValueView {
    /// Whether the pod of this value says all that the value holds. The one
    /// thing that a pod does not say is how many elements an array of empty
    /// values has.
    pub open spec fn spec_lossless(self) -> bool
        decreases self, 0nat,
    {
        match self {
            ValueView::Array(kind, elements) => kind == Kind::Null ==> elements.len() == 0,
            ValueView::Struct(fields) => forall|i: int|
                0 <= i < fields.len() ==> (#[trigger] fields[i]).spec_lossless(),
            ValueView::Object(_, _, properties) => forall|i: int|
                0 <= i < properties.len() ==> (#[trigger] properties[i]).value.spec_lossless(),
            _ => true,
        }
    }

    /// Whether this value has a pod from which it can be read back.
    pub open spec fn spec_encodable(self, order: ByteOrder) -> bool {
        self.spec_well_formed() && self.spec_lossless() && self.spec_check(order) is None
    }
}

} // verus!
