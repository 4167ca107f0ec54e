//! Deserializing pods into values.
//!
//! Every length and offset that is read from the bytes is checked against
//! the bytes that are there before it is used, so that bytes from anywhere
//! can be handed in: what cannot be read is an error, never a panic.

use vstd::prelude::*;
use vstd::slice::{slice_subrange, slice_to_vec};
use vstd::utf8::{decode_utf8, valid_utf8};

use super::canonical::CanonicalFixedSizedPod;
use super::model::{
    spec_bounds, spec_cstr_len, spec_parse, spec_parse_all, spec_parse_array, spec_parse_body,
    spec_parse_choice, spec_parse_cstr, spec_parse_properties, spec_parse_string, spec_values_from, ChoiceEnumView,
    ChoiceView, DeserializeError, Fixed, Kind, PodBounds, PropertyView, ValueView, SPA_CHOICE_ENUM,
    SPA_CHOICE_FLAGS, SPA_CHOICE_NONE, SPA_CHOICE_RANGE, SPA_CHOICE_STEP, SPA_TYPE_ARRAY,
    SPA_TYPE_BYTES, SPA_TYPE_CHOICE, SPA_TYPE_OBJECT, SPA_TYPE_POINTER, SPA_TYPE_STRING,
    SPA_TYPE_STRUCT,
};
use super::value::{
    spec_property_views, spec_views, ChoiceValue, Object, Property, Value, ValueArray,
};
use super::wire::{lemma_u32_same, lemma_u64_same, padding, read_u32, read_u64, ByteOrder};
use crate::utils::{spec_fixed_seq, Choice, ChoiceEnum, Double, Fd, Float, Fraction, Id, Rectangle};
use crate::utils::flags::{ChoiceFlags, PropertyFlags};

verus! {

/// Reads bytes as text if they are UTF-8.
///
/// Calls `core::str::from_utf8`, which succeeds exactly on valid UTF-8 and
/// then gives the text that these bytes encode, in place.
#[verifier::external_body]
fn str_from_utf8<'a>(bytes: &'a [u8]) -> (r: Option<&'a str>)
    ensures
        r is Some <==> valid_utf8(bytes@),
        r is Some ==> r->0@ == decode_utf8(bytes@),
{
    match core::str::from_utf8(bytes) {
        Ok(text) => Some(text),
        Err(_) => None,
    }
}

/// The bounds of the pod at the front of `input[start..end]`: its type, the
/// size of its body, and the size of header, body and padding together.
pub fn pod_bounds(order: ByteOrder, input: &[u8], start: usize, end: usize) -> (r: Result<
    (u32, usize, usize),
    DeserializeError,
>)
    requires
        start <= end <= input@.len(),
    ensures
        match r {
            Ok((type_, size, total)) => spec_bounds(
                order,
                input@.subrange(start as int, end as int),
            ) == Ok::<PodBounds, DeserializeError>(
                PodBounds { type_, size: size as int, total: total as int },
            ) && 8 + size <= total <= end - start,
            Err(e) => spec_bounds(order, input@.subrange(start as int, end as int)) == Err::<
                PodBounds,
                DeserializeError,
            >(e),
        },
{
    let ghost bytes = input@.subrange(start as int, end as int);
    if end - start < 8 {
        return Err(DeserializeError::Truncated);
    }
    let size = read_u32(order, input, start);
    let type_ = read_u32(order, input, start + 4);
    proof {
        lemma_u32_same(order, input@.subrange(start as int, start + 4), bytes);
        lemma_u32_same(order, input@.subrange(start + 4, start + 8), bytes.skip(4));
    }
    let total: u64 = 8 + size as u64 + padding(size as usize) as u64;
    if total > (end - start) as u64 {
        return Err(DeserializeError::Truncated);
    }
    Ok((type_, size as usize, total as usize))
}

/// Number of bytes before the first zero byte of `input[start..end]`.
pub fn cstr_len(input: &[u8], start: usize, end: usize) -> (r: usize)
    requires
        start <= end <= input@.len(),
    ensures
        r == spec_cstr_len(input@.subrange(start as int, end as int)),
        r <= end - start,
{
    let ghost body = input@.subrange(start as int, end as int);
    let mut i: usize = 0;
    proof {
        assert(body.skip(0) =~= body);
    }
    while i < end - start
        invariant
            start <= end <= input@.len(),
            i <= end - start,
            body == input@.subrange(start as int, end as int),
            spec_cstr_len(body) == i + spec_cstr_len(body.skip(i as int)),
        decreases end - start - i,
    {
        if input[start + i] == 0 {
            return i;
        }
        proof {
            assert(body.skip(i as int).drop_first() =~= body.skip(i + 1));
        }
        i += 1;
    }
    i
}

/// The bytes of the string that the body of a string pod holds, borrowed.
pub fn parse_cstr<'a>(input: &'a [u8], start: usize, end: usize) -> (r: Result<
    &'a [u8],
    DeserializeError,
>)
    requires
        start <= end <= input@.len(),
    ensures
        match r {
            Ok(bytes) => spec_parse_cstr(input@.subrange(start as int, end as int)) == Ok::<
                Seq<u8>,
                DeserializeError,
            >(bytes@),
            Err(e) => spec_parse_cstr(input@.subrange(start as int, end as int)) == Err::<
                Seq<u8>,
                DeserializeError,
            >(e),
        },
{
    if start == end {
        return Err(DeserializeError::SizeMismatch);
    }
    let len = cstr_len(input, start, end);
    if len >= end - start {
        return Err(DeserializeError::MissingTerminator);
    }
    let text = slice_subrange(input, start, start + len);
    proof {
        assert(text@ =~= input@.subrange(start as int, end as int).take(len as int));
    }
    Ok(text)
}

/// The text that the body of a string pod holds, borrowed from the bytes.
pub fn parse_str<'a>(input: &'a [u8], start: usize, end: usize) -> (r: Result<
    &'a str,
    DeserializeError,
>)
    requires
        start <= end <= input@.len(),
    ensures
        match r {
            Ok(text) => spec_parse_string(input@.subrange(start as int, end as int)) == Ok::<
                Seq<char>,
                DeserializeError,
            >(text@),
            Err(e) => spec_parse_string(input@.subrange(start as int, end as int)) == Err::<
                Seq<char>,
                DeserializeError,
            >(e),
        },
{
    match parse_cstr(input, start, end) {
        Err(e) => Err(e),
        Ok(bytes) => match str_from_utf8(bytes) {
            Some(string) => Ok(string),
            None => Err(DeserializeError::InvalidUtf8),
        },
    }
}

/// The string that the body of a string pod holds.
pub fn parse_string(input: &[u8], start: usize, end: usize) -> (r: Result<String, DeserializeError>)
    requires
        start <= end <= input@.len(),
    ensures
        match r {
            Ok(text) => spec_parse_string(input@.subrange(start as int, end as int)) == Ok::<
                Seq<char>,
                DeserializeError,
            >(text@),
            Err(e) => spec_parse_string(input@.subrange(start as int, end as int)) == Err::<
                Seq<char>,
                DeserializeError,
            >(e),
        },
{
    match parse_str(input, start, end) {
        Ok(text) => Ok(text.to_owned()),
        Err(e) => Err(e),
    }
}

/// Reading a value from bytes only looks at as many as its kind needs.
pub proof fn lemma_from_body_same(order: ByteOrder, kind: Kind, a: Seq<u8>, b: Seq<u8>)
    requires
        a.len() >= kind.spec_size(),
        b.len() >= kind.spec_size(),
        forall|i: int| 0 <= i < kind.spec_size() ==> a[i] == b[i],
    ensures
        Fixed::spec_from_body(order, kind, a) == Fixed::spec_from_body(order, kind, b),
{
    match kind {
        Kind::Null => {},
        Kind::Bool | Kind::Id | Kind::Int | Kind::Float => {
            lemma_u32_same(order, a, b);
        },
        Kind::Long | Kind::Double | Kind::Fd => {
            lemma_u64_same(order, a, b);
        },
        Kind::Rectangle | Kind::Fraction => {
            lemma_u32_same(order, a, b);
            lemma_u32_same(order, a.skip(4), b.skip(4));
        },
    }
}

/// Reading values from bytes only looks at as many as the values need.
pub proof fn lemma_values_from_same(
    order: ByteOrder,
    kind: Kind,
    a: Seq<u8>,
    b: Seq<u8>,
    count: nat,
)
    requires
        a.len() >= count * kind.spec_size(),
        b.len() >= count * kind.spec_size(),
        forall|i: int| 0 <= i < count * kind.spec_size() ==> a[i] == b[i],
    ensures
        spec_values_from(order, kind, a, count) == spec_values_from(order, kind, b, count),
{
    let size = kind.spec_size() as int;
    let left = spec_values_from(order, kind, a, count);
    let right = spec_values_from(order, kind, b, count);
    assert forall|i: int| 0 <= i < count implies #[trigger] left[i] == right[i] by {
        crate::arith::lemma_products(i, 0, size);
        crate::arith::lemma_products(i + 1, count as int, size);
        lemma_from_body_same(order, kind, a.skip(i * size), b.skip(i * size));
    }
    assert(left =~= right);
}

/// Reads `count` values of one kind that stand one after the other from
/// `start` on.
pub fn parse_elements<T: CanonicalFixedSizedPod>(
    order: ByteOrder,
    input: &[u8],
    start: usize,
    count: usize,
) -> (r: Vec<T>)
    requires
        start + count * T::spec_kind().spec_size() <= input@.len(),
    ensures
        spec_fixed_seq(r@) == spec_values_from(
            order,
            T::spec_kind(),
            input@.skip(start as int),
            count as nat,
        ),
{
    let size = T::kind().size() as usize;
    let ghost bytes = input@.skip(start as int);
    let mut out: Vec<T> = Vec::new();
    let mut i: usize = 0;
    let mut at: usize = start;
    let len = input.len();
    while i < count
        invariant
            i <= count,
            size == T::spec_kind().spec_size(),
            start + count * size <= input@.len() <= usize::MAX,
            at == start + i * size,
            bytes == input@.skip(start as int),
            out@.len() == i,
            forall|j: int|
                0 <= j < i ==> (#[trigger] out@[j]).spec_fixed() == Fixed::spec_from_body(
                    order,
                    T::spec_kind(),
                    bytes.skip(j * size),
                ),
        decreases count - i,
    {
        proof {
            crate::arith::lemma_products(i as int, 0, size as int);
            crate::arith::lemma_products(i + 1, count as int, size as int);
            assert(bytes.skip(i * size) =~= input@.skip(at as int));
        }
        let value = T::deserialize_body(order, input, at).unwrap();
        out.push(value);
        at = at + size;
        i += 1;
    }
    assert(spec_fixed_seq(out@) =~= spec_values_from(order, T::spec_kind(), bytes, count as nat));
    out
}

/// Reads the value of a fixed-size kind that fills `input[start..end]`.
pub fn parse_fixed<T: CanonicalFixedSizedPod>(
    order: ByteOrder,
    input: &[u8],
    start: usize,
    end: usize,
) -> (r: T)
    requires
        start <= end <= input@.len(),
        end - start == T::spec_kind().spec_size(),
    ensures
        r.spec_fixed() == Fixed::spec_from_body(
            order,
            T::spec_kind(),
            input@.subrange(start as int, end as int),
        ),
{
    proof {
        lemma_from_body_same(
            order,
            T::spec_kind(),
            input@.skip(start as int),
            input@.subrange(start as int, end as int),
        );
    }
    T::deserialize_body(order, input, start).unwrap()
}

/// The result of reading a choice, in the model.
pub open spec fn spec_choice_read<T: CanonicalFixedSizedPod>(
    r: Result<Choice<T>, DeserializeError>,
) -> Result<ChoiceView, DeserializeError> {
    match r {
        Ok(choice) => Ok(choice@),
        Err(e) => Err(e),
    }
}

/// The choice that the values make, with its kind and flags.
pub open spec fn spec_choice_of(
    kind: Kind,
    flags: u32,
    choice_type: u32,
    values: Seq<Fixed>,
) -> Result<ChoiceView, DeserializeError> {
    match ChoiceEnumView::spec_from_values(choice_type, values) {
        Err(e) => Err(e),
        Ok(choice) => Ok(ChoiceView { kind, flags, choice }),
    }
}

/// Reads a choice of the given sort and flags from its `count` values,
/// which stand one after the other from `start` on.
pub fn parse_choice<T: CanonicalFixedSizedPod>(
    order: ByteOrder,
    input: &[u8],
    start: usize,
    count: usize,
    choice_type: u32,
    flags: u32,
) -> (r: Result<Choice<T>, DeserializeError>)
    requires
        start + count * T::spec_kind().spec_size() <= input@.len(),
    ensures
        spec_choice_read(r) == spec_choice_of(
            T::spec_kind(),
            flags,
            choice_type,
            spec_values_from(order, T::spec_kind(), input@.skip(start as int), count as nat),
        ),
{
    let size = T::kind().size() as usize;
    let len = input.len();
    let ghost bytes = input@.skip(start as int);
    let ghost values = spec_values_from(order, T::spec_kind(), bytes, count as nat);
    let need: usize = if choice_type == SPA_CHOICE_NONE || choice_type == SPA_CHOICE_ENUM
        || choice_type == SPA_CHOICE_FLAGS {
        1
    } else if choice_type == SPA_CHOICE_RANGE {
        3
    } else if choice_type == SPA_CHOICE_STEP {
        4
    } else {
        return Err(DeserializeError::InvalidChoiceType);
    };
    if count < need {
        return Err(DeserializeError::MissingChoiceValues);
    }
    proof {
        crate::arith::lemma_products(need as int, count as int, size as int);
        assert(bytes.skip(0 * size) =~= input@.skip(start as int));
        assert(bytes.skip(1 * size) =~= input@.skip(start + size));
        if count >= 3 {
            assert(bytes.skip(2 * size) =~= input@.skip(start + 2 * size));
        }
        if count >= 4 {
            assert(bytes.skip(3 * size) =~= input@.skip(start + 3 * size));
        }
    }
    let default = T::deserialize_body(order, input, start).unwrap();
    let flags = ChoiceFlags::from_bits_retain(flags);
    if choice_type == SPA_CHOICE_NONE {
        Ok(Choice(flags, ChoiceEnum::NoChoice(default)))
    } else if choice_type == SPA_CHOICE_RANGE {
        let min = T::deserialize_body(order, input, start + size).unwrap();
        let max = T::deserialize_body(order, input, start + 2 * size).unwrap();
        Ok(Choice(flags, ChoiceEnum::Range { default, min, max }))
    } else if choice_type == SPA_CHOICE_STEP {
        let min = T::deserialize_body(order, input, start + size).unwrap();
        let max = T::deserialize_body(order, input, start + 2 * size).unwrap();
        let step = T::deserialize_body(order, input, start + 3 * size).unwrap();
        Ok(Choice(flags, ChoiceEnum::Step { default, min, max, step }))
    } else {
        proof {
            crate::arith::lemma_products(count as int, 0, size as int);
        }
        let others: Vec<T> = parse_elements(order, input, start + size, count - 1);
        proof {
            let tail = spec_values_from(
                order,
                T::spec_kind(),
                input@.skip(start + size),
                (count - 1) as nat,
            );
            assert forall|i: int| 0 <= i < count - 1 implies tail[i] == values.skip(1)[i] by {
                crate::arith::lemma_products(i, 0, size as int);
                crate::arith::lemma_products(i + 1, count as int, size as int);
                assert(input@.skip(start + size).skip(i * size) =~= bytes.skip((i + 1) * size));
            }
            assert(tail =~= values.skip(1));
        }
        if choice_type == SPA_CHOICE_ENUM {
            Ok(Choice(flags, ChoiceEnum::Enum { default, alternatives: others }))
        } else {
            Ok(Choice(flags, ChoiceEnum::Flags { default, flags: others }))
        }
    }
}

/// The result of reading an array, in the model.
pub open spec fn spec_array_read(r: Result<ValueArray, DeserializeError>) -> Result<
    (Kind, Seq<Fixed>),
    DeserializeError,
> {
    match r {
        Ok(array) => Ok(array@),
        Err(e) => Err(e),
    }
}

/// The result of reading a choice of any kind, in the model.
pub open spec fn spec_choice_value_read(r: Result<ChoiceValue, DeserializeError>) -> Result<
    ChoiceView,
    DeserializeError,
> {
    match r {
        Ok(choice) => Ok(choice@),
        Err(e) => Err(e),
    }
}

/// The result of reading a value, in the model.
pub open spec fn spec_value_read(r: Result<Value, DeserializeError>) -> Result<
    ValueView,
    DeserializeError,
> {
    match r {
        Ok(value) => Ok(value@),
        Err(e) => Err(e),
    }
}

/// The result of reading values, in the model.
pub open spec fn spec_values_read(r: Result<Vec<Value>, DeserializeError>) -> Result<
    Seq<ValueView>,
    DeserializeError,
> {
    match r {
        Ok(values) => Ok(spec_views(values@)),
        Err(e) => Err(e),
    }
}

/// The result of reading properties, in the model.
pub open spec fn spec_properties_read(r: Result<Vec<Property>, DeserializeError>) -> Result<
    Seq<PropertyView>,
    DeserializeError,
> {
    match r {
        Ok(properties) => Ok(spec_property_views(properties@)),
        Err(e) => Err(e),
    }
}

/// Reads the `count` elements of an array of the given kind.
fn parse_array_of(order: ByteOrder, input: &[u8], kind: Kind, start: usize, count: usize) -> (r:
    ValueArray)
    requires
        start + count * kind.spec_size() <= input@.len(),
    ensures
        r@ == (kind, spec_values_from(order, kind, input@.skip(start as int), count as nat)),
{
    match kind {
        Kind::Null => ValueArray::Null(parse_elements(order, input, start, count)),
        Kind::Bool => ValueArray::Bool(parse_elements(order, input, start, count)),
        Kind::Id => ValueArray::Id(parse_elements(order, input, start, count)),
        Kind::Int => ValueArray::Int(parse_elements(order, input, start, count)),
        Kind::Long => ValueArray::Long(parse_elements(order, input, start, count)),
        Kind::Float => ValueArray::Float(parse_elements(order, input, start, count)),
        Kind::Double => ValueArray::Double(parse_elements(order, input, start, count)),
        Kind::Rectangle => ValueArray::Rectangle(parse_elements(order, input, start, count)),
        Kind::Fraction => ValueArray::Fraction(parse_elements(order, input, start, count)),
        Kind::Fd => ValueArray::Fd(parse_elements(order, input, start, count)),
    }
}

/// The array that the body `input[start..end]` of an array pod holds.
pub fn parse_array(order: ByteOrder, input: &[u8], start: usize, end: usize) -> (r: Result<
    ValueArray,
    DeserializeError,
>)
    requires
        start <= end <= input@.len(),
    ensures
        spec_array_read(r) == spec_parse_array(order, input@.subrange(start as int, end as int)),
{
    let ghost body = input@.subrange(start as int, end as int);
    if end - start < 8 {
        return Err(DeserializeError::SizeMismatch);
    }
    let child_size = read_u32(order, input, start);
    let child_type = read_u32(order, input, start + 4);
    proof {
        lemma_u32_same(order, input@.subrange(start as int, start + 4), body);
        lemma_u32_same(order, input@.subrange(start + 4, start + 8), body.skip(4));
    }
    let rest = end - start - 8;
    match Kind::from_type(child_type) {
        None => Err(DeserializeError::UnsupportedType),
        Some(kind) => {
            if child_size != kind.size() {
                return Err(DeserializeError::SizeMismatch);
            }
            let count: usize = if child_size == 0 {
                if rest != 0 {
                    return Err(DeserializeError::SizeMismatch);
                }
                0
            } else {
                if rest % child_size as usize != 0 {
                    return Err(DeserializeError::SizeMismatch);
                }
                rest / child_size as usize
            };
            proof {
                if kind.spec_size() > 0 {
                    crate::arith::lemma_exact_division(rest as int, kind.spec_size() as int);
                }
                lemma_values_from_same(
                    order,
                    kind,
                    input@.skip(start + 8),
                    body.skip(8),
                    count as nat,
                );
                if child_size == 0 {
                    assert(spec_values_from(order, kind, body.skip(8), 0) =~= Seq::empty());
                }
            }
            Ok(parse_array_of(order, input, kind, start + 8, count))
        },
    }
}

/// Reads a choice over values of the given kind, which is not the empty one.
fn parse_choice_of(
    order: ByteOrder,
    input: &[u8],
    kind: Kind,
    start: usize,
    count: usize,
    choice_type: u32,
    flags: u32,
) -> (r: Result<ChoiceValue, DeserializeError>)
    requires
        kind != Kind::Null,
        start + count * kind.spec_size() <= input@.len(),
    ensures
        spec_choice_value_read(r) == spec_choice_of(
            kind,
            flags,
            choice_type,
            spec_values_from(order, kind, input@.skip(start as int), count as nat),
        ),
{
    match kind {
        Kind::Null => Err(DeserializeError::UnsupportedType),
        Kind::Bool => match parse_choice(order, input, start, count, choice_type, flags) {
            Ok(choice) => Ok(ChoiceValue::Bool(choice)),
            Err(e) => Err(e),
        },
        Kind::Id => match parse_choice(order, input, start, count, choice_type, flags) {
            Ok(choice) => Ok(ChoiceValue::Id(choice)),
            Err(e) => Err(e),
        },
        Kind::Int => match parse_choice(order, input, start, count, choice_type, flags) {
            Ok(choice) => Ok(ChoiceValue::Int(choice)),
            Err(e) => Err(e),
        },
        Kind::Long => match parse_choice(order, input, start, count, choice_type, flags) {
            Ok(choice) => Ok(ChoiceValue::Long(choice)),
            Err(e) => Err(e),
        },
        Kind::Float => match parse_choice(order, input, start, count, choice_type, flags) {
            Ok(choice) => Ok(ChoiceValue::Float(choice)),
            Err(e) => Err(e),
        },
        Kind::Double => match parse_choice(order, input, start, count, choice_type, flags) {
            Ok(choice) => Ok(ChoiceValue::Double(choice)),
            Err(e) => Err(e),
        },
        Kind::Rectangle => match parse_choice(order, input, start, count, choice_type, flags) {
            Ok(choice) => Ok(ChoiceValue::Rectangle(choice)),
            Err(e) => Err(e),
        },
        Kind::Fraction => match parse_choice(order, input, start, count, choice_type, flags) {
            Ok(choice) => Ok(ChoiceValue::Fraction(choice)),
            Err(e) => Err(e),
        },
        Kind::Fd => match parse_choice(order, input, start, count, choice_type, flags) {
            Ok(choice) => Ok(ChoiceValue::Fd(choice)),
            Err(e) => Err(e),
        },
    }
}

/// The choice that the body `input[start..end]` of a choice pod holds.
pub fn parse_choice_body(order: ByteOrder, input: &[u8], start: usize, end: usize) -> (r: Result<
    ChoiceValue,
    DeserializeError,
>)
    requires
        start <= end <= input@.len(),
    ensures
        spec_choice_value_read(r) == spec_parse_choice(
            order,
            input@.subrange(start as int, end as int),
        ),
{
    let ghost body = input@.subrange(start as int, end as int);
    if end - start < 16 {
        return Err(DeserializeError::SizeMismatch);
    }
    let choice_type = read_u32(order, input, start);
    let flags = read_u32(order, input, start + 4);
    let child_size = read_u32(order, input, start + 8);
    let child_type = read_u32(order, input, start + 12);
    proof {
        lemma_u32_same(order, input@.subrange(start as int, start + 4), body);
        lemma_u32_same(order, input@.subrange(start + 4, start + 8), body.skip(4));
        lemma_u32_same(order, input@.subrange(start + 8, start + 12), body.skip(8));
        lemma_u32_same(order, input@.subrange(start + 12, start + 16), body.skip(12));
    }
    let rest = end - start - 16;
    match Kind::from_type(child_type) {
        None => Err(DeserializeError::UnsupportedType),
        Some(Kind::Null) => Err(DeserializeError::UnsupportedType),
        Some(kind) => {
            if child_size != kind.size() || rest % child_size as usize != 0 {
                return Err(DeserializeError::SizeMismatch);
            }
            let count = rest / child_size as usize;
            proof {
                crate::arith::lemma_exact_division(rest as int, kind.spec_size() as int);
                lemma_values_from_same(
                    order,
                    kind,
                    input@.skip(start + 16),
                    body.skip(16),
                    count as nat,
                );
            }
            parse_choice_of(order, input, kind, start + 16, count, choice_type, flags)
        },
    }
}

/// Reads the value of the given fixed-size kind that fills `input[start..end]`.
fn parse_fixed_of(order: ByteOrder, input: &[u8], kind: Kind, start: usize, end: usize) -> (r:
    Value)
    requires
        start <= end <= input@.len(),
        end - start == kind.spec_size(),
    ensures
        r@ == ValueView::Fixed(
            Fixed::spec_from_body(order, kind, input@.subrange(start as int, end as int)),
        ),
{
    match kind {
        Kind::Null => Value::Null,
        Kind::Bool => Value::Bool(parse_fixed(order, input, start, end)),
        Kind::Id => Value::Id(parse_fixed(order, input, start, end)),
        Kind::Int => Value::Int(parse_fixed(order, input, start, end)),
        Kind::Long => Value::Long(parse_fixed(order, input, start, end)),
        Kind::Float => Value::Float(parse_fixed(order, input, start, end)),
        Kind::Double => Value::Double(parse_fixed(order, input, start, end)),
        Kind::Rectangle => Value::Rectangle(parse_fixed(order, input, start, end)),
        Kind::Fraction => Value::Fraction(parse_fixed(order, input, start, end)),
        Kind::Fd => Value::Fd(parse_fixed(order, input, start, end)),
    }
}

/// The value that the body `input[start..end]` of a pod of the given type
/// holds.
pub fn parse_body(order: ByteOrder, input: &[u8], type_: u32, start: usize, end: usize) -> (r:
    Result<Value, DeserializeError>)
    requires
        start <= end <= input@.len(),
    ensures
        spec_value_read(r) == spec_parse_body(
            order,
            type_,
            input@.subrange(start as int, end as int),
        ),
    decreases end - start, 1nat,
{
    let ghost body = input@.subrange(start as int, end as int);
    let len = input.len();
    if let Some(kind) = Kind::from_type(type_) {
        if end - start != kind.size() as usize {
            return Err(DeserializeError::SizeMismatch);
        }
        Ok(parse_fixed_of(order, input, kind, start, end))
    } else if type_ == SPA_TYPE_STRING {
        match parse_string(input, start, end) {
            Ok(text) => Ok(Value::String(text)),
            Err(e) => Err(e),
        }
    } else if type_ == SPA_TYPE_BYTES {
        Ok(Value::Bytes(slice_to_vec(slice_subrange(input, start, end))))
    } else if type_ == SPA_TYPE_ARRAY {
        match parse_array(order, input, start, end) {
            Ok(array) => Ok(Value::ValueArray(array)),
            Err(e) => Err(e),
        }
    } else if type_ == SPA_TYPE_STRUCT {
        match parse_all(order, input, start, end) {
            Ok(fields) => Ok(Value::Struct(fields)),
            Err(e) => Err(e),
        }
    } else if type_ == SPA_TYPE_OBJECT {
        if end - start < 8 {
            return Err(DeserializeError::SizeMismatch);
        }
        let object_type = read_u32(order, input, start);
        let id = read_u32(order, input, start + 4);
        proof {
            lemma_u32_same(order, input@.subrange(start as int, start + 4), body);
            lemma_u32_same(order, input@.subrange(start + 4, start + 8), body.skip(4));
            assert(body.skip(8) =~= input@.subrange(start + 8, end as int));
        }
        match parse_properties(order, input, start + 8, end) {
            Ok(properties) => Ok(Value::Object(Object { type_: object_type, id, properties })),
            Err(e) => Err(e),
        }
    } else if type_ == SPA_TYPE_CHOICE {
        match parse_choice_body(order, input, start, end) {
            Ok(choice) => Ok(Value::Choice(choice)),
            Err(e) => Err(e),
        }
    } else if type_ == SPA_TYPE_POINTER {
        if end - start != 16 {
            return Err(DeserializeError::SizeMismatch);
        }
        let pointee = read_u32(order, input, start);
        let address = read_u64(order, input, start + 8);
        proof {
            lemma_u32_same(order, input@.subrange(start as int, start + 4), body);
            lemma_u64_same(order, input@.subrange(start + 8, start + 16), body.skip(8));
        }
        Ok(Value::Pointer(pointee, address))
    } else {
        Err(DeserializeError::UnsupportedType)
    }
}

/// The values whose pods stand one after the other in `input[start..end]`
/// and fill it.
pub fn parse_all(order: ByteOrder, input: &[u8], start: usize, end: usize) -> (r: Result<
    Vec<Value>,
    DeserializeError,
>)
    requires
        start <= end <= input@.len(),
    ensures
        spec_values_read(r) == spec_parse_all(order, input@.subrange(start as int, end as int)),
    decreases end - start, 0nat,
{
    let ghost whole = input@.subrange(start as int, end as int);
    let mut out: Vec<Value> = Vec::new();
    let mut pos: usize = start;
    proof {
        assert(spec_views(out@) =~= Seq::empty());
        match spec_parse_all(order, whole) {
            Ok(rest) => {
                assert(spec_views(out@) + rest =~= rest);
            },
            Err(_) => {},
        }
    }
    while pos < end
        invariant
            start <= pos <= end <= input@.len(),
            whole == input@.subrange(start as int, end as int),
            match spec_parse_all(order, input@.subrange(pos as int, end as int)) {
                Ok(rest) => spec_parse_all(order, whole) == Ok::<Seq<ValueView>, DeserializeError>(
                    spec_views(out@) + rest,
                ),
                Err(e) => spec_parse_all(order, whole) == Err::<Seq<ValueView>, DeserializeError>(
                    e,
                ),
            },
        decreases end - pos,
    {
        let ghost here = input@.subrange(pos as int, end as int);
        let ghost before = out@;
        let (type_, size, total) = match pod_bounds(order, input, pos, end) {
            Ok(bounds) => bounds,
            Err(e) => {
                return Err(e);
            },
        };
        proof {
            assert(here.subrange(8, 8 + size) =~= input@.subrange(pos + 8, pos + 8 + size));
            assert(here.skip(total as int) =~= input@.subrange(pos + total, end as int));
        }
        let value = match parse_body(order, input, type_, pos + 8, pos + 8 + size) {
            Ok(value) => value,
            Err(e) => {
                return Err(e);
            },
        };
        out.push(value);
        pos = pos + total;
        proof {
            assert(out@.drop_last() =~= before);
            assert(spec_views(out@) == spec_views(out@.drop_last()).push(out@.last()@));
            match spec_parse_all(order, input@.subrange(pos as int, end as int)) {
                Ok(rest) => {
                    assert(spec_views(before) + (seq![value@] + rest) =~= spec_views(out@) + rest);
                },
                Err(_) => {},
            }
        }
    }
    proof {
        assert(spec_views(out@) + Seq::<ValueView>::empty() =~= spec_views(out@));
    }
    Ok(out)
}

/// The property at the front of `input[start..end]`, and where what
/// follows it begins.
pub fn parse_property(order: ByteOrder, input: &[u8], start: usize, end: usize) -> (r: Result<
    (Property, usize),
    DeserializeError,
>)
    requires
        start < end <= input@.len(),
    ensures
        match r {
            Ok((property, next)) => start < next <= end && spec_parse_properties(
                order,
                input@.subrange(start as int, end as int),
            ) == match spec_parse_properties(order, input@.subrange(next as int, end as int)) {
                Err(e) => Err::<Seq<PropertyView>, DeserializeError>(e),
                Ok(rest) => Ok(seq![property@] + rest),
            },
            Err(e) => spec_parse_properties(order, input@.subrange(start as int, end as int))
                == Err::<Seq<PropertyView>, DeserializeError>(e),
        },
    decreases end - start, 0nat,
{
    let ghost here = input@.subrange(start as int, end as int);
    if end - start < 8 {
        return Err(DeserializeError::Truncated);
    }
    let key = read_u32(order, input, start);
    let flags = read_u32(order, input, start + 4);
    proof {
        lemma_u32_same(order, input@.subrange(start as int, start + 4), here);
        lemma_u32_same(order, input@.subrange(start + 4, start + 8), here.skip(4));
        assert(here.skip(8) =~= input@.subrange(start + 8, end as int));
    }
    let (type_, size, total) = match pod_bounds(order, input, start + 8, end) {
        Ok(bounds) => bounds,
        Err(e) => {
            return Err(e);
        },
    };
    proof {
        assert(here.subrange(16, 16 + size) =~= input@.subrange(start + 16, start + 16 + size));
        assert(here.skip(8 + total) =~= input@.subrange(start + 8 + total, end as int));
    }
    match parse_body(order, input, type_, start + 16, start + 16 + size) {
        Ok(value) => Ok(
            (
                Property { key, flags: PropertyFlags::from_bits_retain(flags), value },
                start + 8 + total,
            ),
        ),
        Err(e) => Err(e),
    }
}

/// The properties that stand one after the other in `input[start..end]` and
/// fill it.
pub fn parse_properties(order: ByteOrder, input: &[u8], start: usize, end: usize) -> (r: Result<
    Vec<Property>,
    DeserializeError,
>)
    requires
        start <= end <= input@.len(),
    ensures
        spec_properties_read(r) == spec_parse_properties(
            order,
            input@.subrange(start as int, end as int),
        ),
    decreases end - start, 1nat,
{
    let ghost whole = input@.subrange(start as int, end as int);
    let mut out: Vec<Property> = Vec::new();
    let mut pos: usize = start;
    proof {
        assert(spec_property_views(out@) =~= Seq::empty());
        match spec_parse_properties(order, whole) {
            Ok(rest) => {
                assert(spec_property_views(out@) + rest =~= rest);
            },
            Err(_) => {},
        }
    }
    while pos < end
        invariant
            start <= pos <= end <= input@.len(),
            whole == input@.subrange(start as int, end as int),
            match spec_parse_properties(order, input@.subrange(pos as int, end as int)) {
                Ok(rest) => spec_parse_properties(order, whole) == Ok::<
                    Seq<PropertyView>,
                    DeserializeError,
                >(spec_property_views(out@) + rest),
                Err(e) => spec_parse_properties(order, whole) == Err::<
                    Seq<PropertyView>,
                    DeserializeError,
                >(e),
            },
        decreases end - pos,
    {
        let ghost before = out@;
        let (property, next) = match parse_property(order, input, pos, end) {
            Ok(found) => found,
            Err(e) => {
                return Err(e);
            },
        };
        let ghost view = property@;
        out.push(property);
        pos = next;
        proof {
            assert(out@.drop_last() =~= before);
            assert(spec_property_views(out@) == spec_property_views(out@.drop_last()).push(
                out@.last()@,
            ));
            match spec_parse_properties(order, input@.subrange(pos as int, end as int)) {
                Ok(rest) => {
                    assert(spec_property_views(before) + (seq![view] + rest)
                        =~= spec_property_views(out@) + rest);
                },
                Err(_) => {},
            }
        }
    }
    proof {
        assert(spec_property_views(out@) + Seq::<PropertyView>::empty() =~= spec_property_views(
            out@,
        ));
    }
    Ok(out)
}

/// What is made of a pod is up to a visitor: the deserializer reads the pod
/// and calls the method of the visitor that is meant for its type.
///
/// A visitor that makes a [`Value`] of every pod is [`ValueVisitor`]. One
/// that is after a type of its own makes that of the pods it expects, and
/// an error of the others.
pub trait Visitor: Sized {
    /// What the visitor makes of a pod.
    type Value;

    /// Whether `r` is what the visitor makes of a pod that holds `value`. A
    /// visitor that does not say is taken to make anything of it.
    open spec fn spec_visited(
        &self,
        value: ValueView,
        r: Result<Self::Value, DeserializeError>,
    ) -> bool {
        true
    }

    /// A pod without a value.
    fn visit_none(&self) -> (r: Result<Self::Value, DeserializeError>)
        ensures
            self.spec_visited(ValueView::Fixed(Fixed::Null), r),
    ;

    /// A boolean.
    fn visit_bool(&self, value: bool) -> (r: Result<Self::Value, DeserializeError>)
        ensures
            self.spec_visited(ValueView::Fixed(Fixed::Bool(value)), r),
    ;

    /// An enumerated value.
    fn visit_id(&self, value: Id) -> (r: Result<Self::Value, DeserializeError>)
        ensures
            self.spec_visited(ValueView::Fixed(Fixed::Id(value.0)), r),
    ;

    /// A 32 bits integer.
    fn visit_int(&self, value: i32) -> (r: Result<Self::Value, DeserializeError>)
        ensures
            self.spec_visited(ValueView::Fixed(Fixed::Int(value)), r),
    ;

    /// A 64 bits integer.
    fn visit_long(&self, value: i64) -> (r: Result<Self::Value, DeserializeError>)
        ensures
            self.spec_visited(ValueView::Fixed(Fixed::Long(value)), r),
    ;

    /// A 32 bits floating point number.
    fn visit_float(&self, value: Float) -> (r: Result<Self::Value, DeserializeError>)
        ensures
            self.spec_visited(ValueView::Fixed(Fixed::Float(value.0)), r),
    ;

    /// A 64 bits floating point number.
    fn visit_double(&self, value: Double) -> (r: Result<Self::Value, DeserializeError>)
        ensures
            self.spec_visited(ValueView::Fixed(Fixed::Double(value.0)), r),
    ;

    /// A string, borrowed from the bytes that are read.
    fn visit_string(&self, value: &str) -> (r: Result<Self::Value, DeserializeError>)
        ensures
            self.spec_visited(ValueView::String(value@), r),
    ;

    /// A byte array, borrowed from the bytes that are read.
    fn visit_bytes(&self, value: &[u8]) -> (r: Result<Self::Value, DeserializeError>)
        ensures
            self.spec_visited(ValueView::Bytes(value@), r),
    ;

    /// A rectangle.
    fn visit_rectangle(&self, value: Rectangle) -> (r: Result<Self::Value, DeserializeError>)
        ensures
            self.spec_visited(ValueView::Fixed(Fixed::Rectangle(value.width, value.height)), r),
    ;

    /// A fraction.
    fn visit_fraction(&self, value: Fraction) -> (r: Result<Self::Value, DeserializeError>)
        ensures
            self.spec_visited(ValueView::Fixed(Fixed::Fraction(value.num, value.denom)), r),
    ;

    /// A file descriptor.
    fn visit_fd(&self, value: Fd) -> (r: Result<Self::Value, DeserializeError>)
        ensures
            self.spec_visited(ValueView::Fixed(Fixed::Fd(value.0)), r),
    ;

    /// An array.
    fn visit_array(&self, elements: ValueArray) -> (r: Result<Self::Value, DeserializeError>)
        ensures
            self.spec_visited(ValueView::Array(elements@.0, elements@.1), r),
    ;

    /// A struct, with its fields.
    fn visit_struct(&self, fields: Vec<Value>) -> (r: Result<Self::Value, DeserializeError>)
        ensures
            self.spec_visited(ValueView::Struct(spec_views(fields@)), r),
    ;

    /// An object, with its properties.
    fn visit_object(&self, object: Object) -> (r: Result<Self::Value, DeserializeError>)
        ensures
            self.spec_visited(ValueView::Object(object.type_, object.id, spec_property_views(object.properties@)), r),
    ;

    /// A choice.
    fn visit_choice(&self, choice: ChoiceValue) -> (r: Result<Self::Value, DeserializeError>)
        ensures
            self.spec_visited(ValueView::Choice(choice@), r),
    ;

    /// A pointer: the type of what it points to, and its address.
    fn visit_pointer(&self, type_: u32, address: u64) -> (r: Result<Self::Value, DeserializeError>)
        ensures
            self.spec_visited(ValueView::Pointer(type_, address), r),
    ;

}

/// The visitor that makes of every pod the [`Value`] that it holds.
#[derive(Debug, Copy, Clone)]
pub struct ValueVisitor;

impl Visitor for ValueVisitor {
    type Value = Value;

    open spec fn spec_visited(&self, value: ValueView, r: Result<Value, DeserializeError>) -> bool {
        r is Ok && r->Ok_0@ == value
    }

    fn visit_none(&self) -> (r: Result<Value, DeserializeError>) {
        Ok(Value::Null)
    }

    fn visit_bool(&self, value: bool) -> (r: Result<Value, DeserializeError>) {
        Ok(Value::Bool(value))
    }

    fn visit_id(&self, value: Id) -> (r: Result<Value, DeserializeError>) {
        Ok(Value::Id(value))
    }

    fn visit_int(&self, value: i32) -> (r: Result<Value, DeserializeError>) {
        Ok(Value::Int(value))
    }

    fn visit_long(&self, value: i64) -> (r: Result<Value, DeserializeError>) {
        Ok(Value::Long(value))
    }

    fn visit_float(&self, value: Float) -> (r: Result<Value, DeserializeError>) {
        Ok(Value::Float(value))
    }

    fn visit_double(&self, value: Double) -> (r: Result<Value, DeserializeError>) {
        Ok(Value::Double(value))
    }

    fn visit_string(&self, value: &str) -> (r: Result<Value, DeserializeError>) {
        Ok(Value::String(value.to_owned()))
    }

    fn visit_bytes(&self, value: &[u8]) -> (r: Result<Value, DeserializeError>) {
        Ok(Value::Bytes(slice_to_vec(value)))
    }

    fn visit_rectangle(&self, value: Rectangle) -> (r: Result<Value, DeserializeError>) {
        Ok(Value::Rectangle(value))
    }

    fn visit_fraction(&self, value: Fraction) -> (r: Result<Value, DeserializeError>) {
        Ok(Value::Fraction(value))
    }

    fn visit_fd(&self, value: Fd) -> (r: Result<Value, DeserializeError>) {
        Ok(Value::Fd(value))
    }

    fn visit_array(&self, elements: ValueArray) -> (r: Result<Value, DeserializeError>) {
        Ok(Value::ValueArray(elements))
    }

    fn visit_struct(&self, fields: Vec<Value>) -> (r: Result<Value, DeserializeError>) {
        Ok(Value::Struct(fields))
    }

    fn visit_object(&self, object: Object) -> (r: Result<Value, DeserializeError>) {
        Ok(Value::Object(object))
    }

    fn visit_choice(&self, choice: ChoiceValue) -> (r: Result<Value, DeserializeError>) {
        Ok(Value::Choice(choice))
    }

    fn visit_pointer(&self, type_: u32, address: u64) -> (r: Result<Value, DeserializeError>) {
        Ok(Value::Pointer(type_, address))
    }

}

/// Whether `r` is what a visitor makes of what was read.
pub open spec fn spec_visit_read<V: Visitor>(
    visitor: &V,
    read: Result<ValueView, DeserializeError>,
    r: Result<V::Value, DeserializeError>,
) -> bool {
    match read {
        Err(e) => r == Err::<V::Value, DeserializeError>(e),
        Ok(value) => visitor.spec_visited(value, r),
    }
}

/// Hands the value of the given fixed-size kind that fills
/// `input[start..end]` to the visitor.
fn visit_fixed_of<V: Visitor>(
    order: ByteOrder,
    input: &[u8],
    kind: Kind,
    start: usize,
    end: usize,
    visitor: &V,
) -> (r: Result<V::Value, DeserializeError>)
    requires
        start <= end <= input@.len(),
        end - start == kind.spec_size(),
    ensures
        visitor.spec_visited(
            ValueView::Fixed(
                Fixed::spec_from_body(order, kind, input@.subrange(start as int, end as int)),
            ),
            r,
        ),
{
    match kind {
        Kind::Null => visitor.visit_none(),
        Kind::Bool => visitor.visit_bool(parse_fixed(order, input, start, end)),
        Kind::Id => visitor.visit_id(parse_fixed(order, input, start, end)),
        Kind::Int => visitor.visit_int(parse_fixed(order, input, start, end)),
        Kind::Long => visitor.visit_long(parse_fixed(order, input, start, end)),
        Kind::Float => visitor.visit_float(parse_fixed(order, input, start, end)),
        Kind::Double => visitor.visit_double(parse_fixed(order, input, start, end)),
        Kind::Rectangle => visitor.visit_rectangle(parse_fixed(order, input, start, end)),
        Kind::Fraction => visitor.visit_fraction(parse_fixed(order, input, start, end)),
        Kind::Fd => visitor.visit_fd(parse_fixed(order, input, start, end)),
    }
}

/// Reads the body `input[start..end]` of a pod of the given type, and hands
/// what it holds to the visitor. Fixed-size values, strings and bytes are
/// handed over as they are read, without a [`Value`] in between.
pub fn visit_body<V: Visitor>(
    order: ByteOrder,
    input: &[u8],
    type_: u32,
    start: usize,
    end: usize,
    visitor: &V,
) -> (r: Result<V::Value, DeserializeError>)
    requires
        start <= end <= input@.len(),
    ensures
        spec_visit_read(
            visitor,
            spec_parse_body(order, type_, input@.subrange(start as int, end as int)),
            r,
        ),
{
    let ghost body = input@.subrange(start as int, end as int);
    let len = input.len();
    if let Some(kind) = Kind::from_type(type_) {
        if end - start != kind.size() as usize {
            return Err(DeserializeError::SizeMismatch);
        }
        visit_fixed_of(order, input, kind, start, end, visitor)
    } else if type_ == SPA_TYPE_STRING {
        match parse_str(input, start, end) {
            Ok(text) => visitor.visit_string(text),
            Err(e) => Err(e),
        }
    } else if type_ == SPA_TYPE_BYTES {
        visitor.visit_bytes(slice_subrange(input, start, end))
    } else {
        match parse_body(order, input, type_, start, end) {
            Ok(Value::ValueArray(elements)) => visitor.visit_array(elements),
            Ok(Value::Struct(fields)) => visitor.visit_struct(fields),
            Ok(Value::Object(object)) => visitor.visit_object(object),
            Ok(Value::Choice(choice)) => visitor.visit_choice(choice),
            Ok(Value::Pointer(pointee, address)) => visitor.visit_pointer(pointee, address),
            Ok(_) => Err(DeserializeError::UnsupportedType),
            Err(e) => Err(e),
        }
    }
}

/// The result of reading a pod from the front of bytes, in the model: the
/// value, and how many bytes the pod takes.
pub open spec fn spec_pod_read(input: Seq<u8>, r: Result<(&[u8], Value), DeserializeError>) -> Result<
    (ValueView, int),
    DeserializeError,
> {
    match r {
        Ok((rest, value)) => Ok((value@, input.len() - rest@.len())),
        Err(e) => Err(e),
    }
}

/// Implementors of this trait can be read from a pod.
///
/// It is implemented for [`Value`], for the canonical representations of
/// the fixed-size kinds, and for choices over them.
pub trait PodDeserialize: Sized {
    /// Whether `r` is what comes of reading the pod at the front of `input`
    /// as the type: the value, and how many bytes the pod takes, or the
    /// error of reading it. An implementor that does not say is taken to
    /// read anything.
    open spec fn spec_deserialized(
        order: ByteOrder,
        input: Seq<u8>,
        r: Result<(Self, usize), DeserializeError>,
    ) -> bool {
        true
    }

    /// Reads the pod at the front of `input` as the type. Returns the value
    /// and how many bytes the pod takes.
    fn deserialize(order: ByteOrder, input: &[u8]) -> (r: Result<(Self, usize), DeserializeError>)
        ensures
            Self::spec_deserialized(order, input@, r),
    ;
}

impl PodDeserialize for Value {
    /// The value that the pod holds, whatever its type.
    open spec fn spec_deserialized(
        order: ByteOrder,
        input: Seq<u8>,
        r: Result<(Self, usize), DeserializeError>,
    ) -> bool {
        match spec_parse(order, input) {
            Err(e) => r == Err::<(Self, usize), DeserializeError>(e),
            Ok((value, total)) => r is Ok && r->Ok_0.0@ == value && r->Ok_0.1 == total,
        }
    }

    fn deserialize(order: ByteOrder, input: &[u8]) -> (r: Result<(Self, usize), DeserializeError>) {
        let len = input.len();
        proof {
            assert(input@.subrange(0, len as int) =~= input@);
        }
        let (type_, size, total) = match pod_bounds(order, input, 0, len) {
            Ok(bounds) => bounds,
            Err(e) => {
                return Err(e);
            },
        };
        match parse_body(order, input, type_, 8, 8 + size) {
            Ok(value) => Ok((value, total)),
            Err(e) => Err(e),
        }
    }
}

/// What comes of reading a pod as a value of a fixed-size kind: the pod
/// must be there, of the type of the kind, and its body of the size of the
/// kind.
pub open spec fn spec_parse_fixed(order: ByteOrder, kind: Kind, input: Seq<u8>) -> Result<
    (Fixed, int),
    DeserializeError,
> {
    match spec_bounds(order, input) {
        Err(e) => Err(e),
        Ok(bounds) => if bounds.type_ != kind.spec_type() {
            Err(DeserializeError::TypeMismatch)
        } else if bounds.size != kind.spec_size() {
            Err(DeserializeError::SizeMismatch)
        } else {
            Ok((Fixed::spec_from_body(order, kind, input.subrange(8, 8 + bounds.size)), bounds.total))
        },
    }
}

impl<T: CanonicalFixedSizedPod> PodDeserialize for T {
    /// The value of the kind of the type, if the pod is of that kind.
    open spec fn spec_deserialized(
        order: ByteOrder,
        input: Seq<u8>,
        r: Result<(Self, usize), DeserializeError>,
    ) -> bool {
        match spec_parse_fixed(order, T::spec_kind(), input) {
            Err(e) => r == Err::<(Self, usize), DeserializeError>(e),
            Ok((value, total)) => r is Ok && r->Ok_0.0.spec_fixed() == value && r->Ok_0.1
                == total,
        }
    }

    fn deserialize(order: ByteOrder, input: &[u8]) -> (r: Result<(Self, usize), DeserializeError>) {
        let len = input.len();
        proof {
            assert(input@.subrange(0, len as int) =~= input@);
        }
        let (type_, size, total) = match pod_bounds(order, input, 0, len) {
            Ok(bounds) => bounds,
            Err(e) => {
                return Err(e);
            },
        };
        let kind = T::kind();
        if type_ != kind.type_() {
            return Err(DeserializeError::TypeMismatch);
        }
        if size != kind.size() as usize {
            return Err(DeserializeError::SizeMismatch);
        }
        Ok((parse_fixed(order, input, 8, 8 + size), total))
    }
}

/// What comes of reading a pod as a choice over values of one kind: the
/// pod must be there, a choice, and over values of that kind.
pub open spec fn spec_parse_choice_of(order: ByteOrder, kind: Kind, input: Seq<u8>) -> Result<
    (ChoiceView, int),
    DeserializeError,
> {
    match spec_bounds(order, input) {
        Err(e) => Err(e),
        Ok(bounds) => if bounds.type_ != SPA_TYPE_CHOICE {
            Err(DeserializeError::TypeMismatch)
        } else {
            match spec_parse_choice(order, input.subrange(8, 8 + bounds.size)) {
                Err(e) => Err(e),
                Ok(choice) => if choice.kind != kind {
                    Err(DeserializeError::TypeMismatch)
                } else {
                    Ok((choice, bounds.total))
                },
            }
        },
    }
}

impl<T: CanonicalFixedSizedPod> PodDeserialize for Choice<T> {
    /// The choice that the pod holds, if it is one over values of the kind
    /// of the type.
    open spec fn spec_deserialized(
        order: ByteOrder,
        input: Seq<u8>,
        r: Result<(Self, usize), DeserializeError>,
    ) -> bool {
        match spec_parse_choice_of(order, T::spec_kind(), input) {
            Err(e) => r == Err::<(Self, usize), DeserializeError>(e),
            Ok((choice, total)) => r is Ok && r->Ok_0.0@ == choice && r->Ok_0.1 == total,
        }
    }

    fn deserialize(order: ByteOrder, input: &[u8]) -> (r: Result<(Self, usize), DeserializeError>) {
        let len = input.len();
        proof {
            assert(input@.subrange(0, len as int) =~= input@);
        }
        let (type_, size, total) = match pod_bounds(order, input, 0, len) {
            Ok(bounds) => bounds,
            Err(e) => {
                return Err(e);
            },
        };
        if type_ != SPA_TYPE_CHOICE {
            return Err(DeserializeError::TypeMismatch);
        }
        let ghost body = input@.subrange(8, 8 + size);
        if size < 16 {
            return Err(DeserializeError::SizeMismatch);
        }
        let choice_type = read_u32(order, input, 8);
        let flags = read_u32(order, input, 12);
        let child_size = read_u32(order, input, 16);
        let child_type = read_u32(order, input, 20);
        proof {
            lemma_u32_same(order, input@.subrange(8, 12), body);
            lemma_u32_same(order, input@.subrange(12, 16), body.skip(4));
            lemma_u32_same(order, input@.subrange(16, 20), body.skip(8));
            lemma_u32_same(order, input@.subrange(20, 24), body.skip(12));
        }
        let rest = size - 16;
        match Kind::from_type(child_type) {
            None => Err(DeserializeError::UnsupportedType),
            Some(Kind::Null) => Err(DeserializeError::UnsupportedType),
            Some(kind) => {
                if child_size != kind.size() || rest % child_size as usize != 0 {
                    return Err(DeserializeError::SizeMismatch);
                }
                let count = rest / child_size as usize;
                proof {
                    crate::arith::lemma_exact_division(rest as int, kind.spec_size() as int);
                    lemma_values_from_same(
                        order,
                        kind,
                        input@.skip(24),
                        body.skip(16),
                        count as nat,
                    );
                }
                let wanted = T::kind();
                let same = match (kind, wanted) {
                    (Kind::Bool, Kind::Bool) => true,
                    (Kind::Id, Kind::Id) => true,
                    (Kind::Int, Kind::Int) => true,
                    (Kind::Long, Kind::Long) => true,
                    (Kind::Float, Kind::Float) => true,
                    (Kind::Double, Kind::Double) => true,
                    (Kind::Rectangle, Kind::Rectangle) => true,
                    (Kind::Fraction, Kind::Fraction) => true,
                    (Kind::Fd, Kind::Fd) => true,
                    _ => false,
                };
                if !same {
                    // the values must still make a choice for the kind to matter
                    return match parse_choice_of(
                        order,
                        input,
                        kind,
                        24,
                        count,
                        choice_type,
                        flags,
                    ) {
                        Ok(_) => Err(DeserializeError::TypeMismatch),
                        Err(e) => Err(e),
                    };
                }
                match parse_choice::<T>(order, input, 24, count, choice_type, flags) {
                    Ok(choice) => Ok((choice, total)),
                    Err(e) => Err(e),
                }
            },
        }
    }
}

/// The result of reading a pod as a type, with the bytes that follow the
/// pod in place of their number. A number of bytes that is more than there
/// are counts as truncated input.
pub open spec fn spec_with_rest<P>(
    input: Seq<u8>,
    r: Result<(&[u8], P), DeserializeError>,
    read: Result<(P, usize), DeserializeError>,
) -> bool {
    match read {
        Err(e) => r == Err::<(&[u8], P), DeserializeError>(e),
        Ok((value, total)) => if total <= input.len() {
            r is Ok && r->Ok_0.1 == value && r->Ok_0.0@ == input.skip(total as int)
        } else {
            r == Err::<(&[u8], P), DeserializeError>(DeserializeError::Truncated)
        },
    }
}

/// Whether `r` is what comes of reading the pod at the front of `input` for
/// a visitor: the error of reading it, or what the visitor makes of the
/// value, with the bytes that follow the pod.
pub open spec fn spec_pod_visited<V: Visitor>(
    visitor: &V,
    order: ByteOrder,
    input: Seq<u8>,
    r: Result<(&[u8], V::Value), DeserializeError>,
) -> bool {
    match spec_parse(order, input) {
        Err(e) => r == Err::<(&[u8], V::Value), DeserializeError>(e),
        Ok((value, total)) => match r {
            Ok((rest, made)) => rest@ == input.skip(total) && visitor.spec_visited(
                value,
                Ok(made),
            ),
            Err(e) => visitor.spec_visited(value, Err(e)),
        },
    }
}

/// Deserializes pods into values.
pub struct PodDeserializer;

impl PodDeserializer {
    /// Reads the pod at the front of `input`, in the given byte order.
    /// Returns the value it holds and the bytes that follow the pod.
    pub fn deserialize_any_with_order<'a>(order: ByteOrder, input: &'a [u8]) -> (r: Result<
        (&'a [u8], Value),
        DeserializeError,
    >)
        ensures
            spec_pod_read(input@, r) == spec_parse(order, input@),
            r is Ok ==> r->Ok_0.0@ == input@.skip(input@.len() - r->Ok_0.0@.len()),
    {
        let len = input.len();
        proof {
            assert(input@.subrange(0, len as int) =~= input@);
        }
        let (type_, size, total) = match pod_bounds(order, input, 0, len) {
            Ok(bounds) => bounds,
            Err(e) => {
                return Err(e);
            },
        };
        match parse_body(order, input, type_, 8, 8 + size) {
            Ok(value) => {
                let rest = slice_subrange(input, total, len);
                proof {
                    assert(rest@ =~= input@.skip(total as int));
                }
                Ok((rest, value))
            },
            Err(e) => Err(e),
        }
    }

    /// Reads the pod at the front of `input` as the type `P`, in the given
    /// byte order. Returns the value and the bytes that follow the pod.
    pub fn deserialize_from_with_order<'a, P: PodDeserialize>(
        order: ByteOrder,
        input: &'a [u8],
    ) -> (r: Result<(&'a [u8], P), DeserializeError>)
        ensures
            exists|read: Result<(P, usize), DeserializeError>|
                P::spec_deserialized(order, input@, read) && spec_with_rest(input@, r, read),
    {
        let read = P::deserialize(order, input);
        let ghost outcome = read;
        let r = match read {
            Ok((value, total)) => {
                if total > input.len() {
                    Err(DeserializeError::Truncated)
                } else {
                    let rest = slice_subrange(input, total, input.len());
                    assert(rest@ =~= input@.skip(total as int));
                    Ok((rest, value))
                }
            },
            Err(e) => Err(e),
        };
        assert(spec_with_rest(input@, r, outcome));
        r
    }

    /// Reads the pod at the front of `input` as the type `P`, in the byte
    /// order of this machine. Returns the value and the bytes that follow
    /// the pod.
    pub fn deserialize_from<'a, P: PodDeserialize>(input: &'a [u8]) -> (r: Result<
        (&'a [u8], P),
        DeserializeError,
    >)
        ensures
            exists|order: ByteOrder, read: Result<(P, usize), DeserializeError>|
                P::spec_deserialized(order, input@, read) && spec_with_rest(input@, r, read),
    {
        let order = ByteOrder::native();
        let r = Self::deserialize_from_with_order(order, input);
        assert(exists|read: Result<(P, usize), DeserializeError>|
            P::spec_deserialized(order, input@, read) && spec_with_rest(input@, r, read));
        r
    }

    /// Reads the pod at the front of `input`, in the given byte order, and
    /// hands what it holds to the visitor. Returns what the visitor makes of
    /// it, and the bytes that follow the pod.
    pub fn visit_with_order<'a, V: Visitor>(
        order: ByteOrder,
        input: &'a [u8],
        visitor: &V,
    ) -> (r: Result<(&'a [u8], V::Value), DeserializeError>)
        ensures
            spec_pod_visited(visitor, order, input@, r),
    {
        let len = input.len();
        proof {
            assert(input@.subrange(0, len as int) =~= input@);
        }
        let (type_, size, total) = match pod_bounds(order, input, 0, len) {
            Ok(bounds) => bounds,
            Err(e) => {
                return Err(e);
            },
        };
        match visit_body(order, input, type_, 8, 8 + size, visitor) {
            Ok(made) => {
                let rest = slice_subrange(input, total, len);
                proof {
                    assert(rest@ =~= input@.skip(total as int));
                }
                Ok((rest, made))
            },
            Err(e) => Err(e),
        }
    }

    /// Reads the pod at the front of `input`, in the byte order of this
    /// machine, and hands what it holds to the visitor. Returns what the
    /// visitor makes of it, and the bytes that follow the pod.
    pub fn visit_from<'a, V: Visitor>(input: &'a [u8], visitor: &V) -> (r: Result<
        (&'a [u8], V::Value),
        DeserializeError,
    >)
        ensures
            spec_pod_visited(visitor, ByteOrder::Little, input@, r) || spec_pod_visited(
                visitor,
                ByteOrder::Big,
                input@,
                r,
            ),
    {
        Self::visit_with_order(ByteOrder::native(), input, visitor)
    }

    /// Reads the pod at the front of `input`, in the byte order of this
    /// machine. Returns the value it holds and the bytes that follow the pod.
    pub fn deserialize_any_from<'a>(input: &'a [u8]) -> (r: Result<
        (&'a [u8], Value),
        DeserializeError,
    >)
        ensures
            spec_pod_read(input@, r) == spec_parse(ByteOrder::Little, input@) || spec_pod_read(
                input@,
                r,
            ) == spec_parse(ByteOrder::Big, input@),
            r is Ok ==> r->Ok_0.0@ == input@.skip(input@.len() - r->Ok_0.0@.len()),
    {
        Self::deserialize_any_with_order(ByteOrder::native(), input)
    }
}

} // verus!
