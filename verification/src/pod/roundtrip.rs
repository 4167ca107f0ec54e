//! Decoding undoes encoding: every value that has a pod is read back from it
//! as it was.

use vstd::prelude::*;
use vstd::utf8::encode_utf8;

use super::laws::{lemma_bodies_first, lemma_fixed_body_len, lemma_header_len, lemma_pod_len};
use super::model::{
    spec_all_of_kind, spec_bodies, spec_bounds, spec_cstr_len, spec_encode_all,
    spec_encode_properties, spec_has_zero, spec_parse_array, spec_parse_choice, spec_parse_string,
    spec_values_from, ChoiceEnumView, ChoiceView, DeserializeError, Fixed, Kind, PodBounds,
    PropertyView, ValueView,
};
use super::wire::{
    lemma_signed_bits, lemma_u32_bytes, lemma_u32_same, lemma_u64_bytes, lemma_u64_same,
    spec_header, spec_padding, spec_pod, spec_u32_bytes, spec_u32_from_bytes, spec_u64_bytes,
    spec_u64_from_bytes, spec_zeros, ByteOrder,
};

verus! {

/// A 32-bit integer is read back from the front of what begins with its bytes.
pub proof fn lemma_u32_front(order: ByteOrder, x: u32, rest: Seq<u8>)
    ensures
        spec_u32_from_bytes(order, spec_u32_bytes(order, x) + rest) == x,
        (spec_u32_bytes(order, x) + rest).skip(4) == rest,
{
    lemma_u32_bytes(order, x);
    lemma_u32_same(order, spec_u32_bytes(order, x) + rest, spec_u32_bytes(order, x));
    assert((spec_u32_bytes(order, x) + rest).skip(4) =~= rest);
}

/// A 64-bit integer is read back from the front of what begins with its bytes.
pub proof fn lemma_u64_front(order: ByteOrder, x: u64, rest: Seq<u8>)
    ensures
        spec_u64_from_bytes(order, spec_u64_bytes(order, x) + rest) == x,
        (spec_u64_bytes(order, x) + rest).skip(8) == rest,
{
    lemma_u64_bytes(order, x);
    lemma_u64_same(order, spec_u64_bytes(order, x) + rest, spec_u64_bytes(order, x));
    assert((spec_u64_bytes(order, x) + rest).skip(8) =~= rest);
}

/// A value of a fixed-size kind is read back from what begins with its body.
pub proof fn lemma_fixed_roundtrip(order: ByteOrder, value: Fixed, rest: Seq<u8>)
    ensures
        Fixed::spec_from_body(order, value.kind(), value.spec_body(order) + rest) == value,
{
    let empty = Seq::<u8>::empty();
    lemma_signed_bits(0, 0);
    match value {
        Fixed::Null => {},
        Fixed::Bool(b) => lemma_u32_front(order, if b { 1u32 } else { 0u32 }, rest),
        Fixed::Id(x) => lemma_u32_front(order, x, rest),
        Fixed::Int(x) => {
            lemma_u32_front(order, super::wire::spec_i32_bits(x), rest);
            lemma_signed_bits(x, 0);
        },
        Fixed::Long(x) => {
            lemma_u64_front(order, super::wire::spec_i64_bits(x), rest);
            lemma_signed_bits(0, x);
        },
        Fixed::Float(x) => lemma_u32_front(order, x, rest),
        Fixed::Double(x) => lemma_u64_front(order, x, rest),
        Fixed::Rectangle(w, h) => {
            let tail = spec_u32_bytes(order, h) + rest;
            lemma_u32_front(order, w, tail);
            lemma_u32_front(order, h, rest);
            assert(value.spec_body(order) + rest =~= spec_u32_bytes(order, w) + tail);
        },
        Fixed::Fraction(n, d) => {
            let tail = spec_u32_bytes(order, d) + rest;
            lemma_u32_front(order, n, tail);
            lemma_u32_front(order, d, rest);
            assert(value.spec_body(order) + rest =~= spec_u32_bytes(order, n) + tail);
        },
        Fixed::Fd(x) => {
            lemma_u64_front(order, super::wire::spec_i64_bits(x), rest);
            lemma_signed_bits(0, x);
        },
    }
}

/// The bodies of values of one kind are as long as the values are many,
/// times the size of the kind.
pub proof fn lemma_bodies_len(order: ByteOrder, kind: Kind, values: Seq<Fixed>)
    requires
        spec_all_of_kind(kind, values),
    ensures
        spec_bodies(order, values).len() == values.len() * kind.spec_size(),
    decreases values.len(),
{
    if values.len() > 0 {
        lemma_bodies_len(order, kind, values.drop_last());
        lemma_fixed_body_len(order, values.last());
        crate::arith::lemma_products(values.len() as int, 0, kind.spec_size() as int);
    }
}

/// Values of one kind are read back from what begins with their bodies.
pub proof fn lemma_values_roundtrip(order: ByteOrder, kind: Kind, values: Seq<Fixed>, rest: Seq<u8>)
    requires
        spec_all_of_kind(kind, values),
    ensures
        spec_values_from(order, kind, spec_bodies(order, values) + rest, values.len())
            == values,
    decreases values.len(),
{
    let size = kind.spec_size() as int;
    let bytes = spec_bodies(order, values) + rest;
    let read = spec_values_from(order, kind, bytes, values.len());
    if values.len() > 0 {
        let first = values[0];
        let others = values.skip(1);
        lemma_bodies_first(order, values);
        lemma_fixed_body_len(order, first);
        lemma_bodies_len(order, kind, others);
        lemma_values_roundtrip(order, kind, others, rest);
        let tail = spec_bodies(order, others) + rest;
        assert(bytes =~= first.spec_body(order) + tail);
        lemma_fixed_roundtrip(order, first, tail);
        assert(bytes.skip(0 * size) =~= bytes);
        assert forall|i: int| 0 <= i < values.len() implies #[trigger] read[i] == values[i] by {
            if i > 0 {
                crate::arith::lemma_products(i, 0, size);
                crate::arith::lemma_products(i - 1, others.len() as int, size);
                assert(bytes.skip(i * size) =~= tail.skip((i - 1) * size));
                assert(spec_values_from(order, kind, tail, others.len())[i - 1] == others[i - 1]);
            }
        }
    }
    assert(read =~= values);
}

/// The header of a pod that is followed by anything is read back as the
/// bounds of the pod.
pub proof fn lemma_bounds_of_pod(order: ByteOrder, type_: u32, body: Seq<u8>, rest: Seq<u8>)
    requires
        body.len() <= u32::MAX,
    ensures
        ({
            let pod = spec_pod(order, type_, body);
            &&& spec_bounds(order, pod + rest) == Ok::<PodBounds, DeserializeError>(
                PodBounds { type_, size: body.len() as int, total: pod.len() as int },
            )
            &&& (pod + rest).subrange(8, 8 + body.len() as int) == body
            &&& (pod + rest).skip(pod.len() as int) == rest
        }),
{
    let pod = spec_pod(order, type_, body);
    let size = body.len() as u32;
    let after_size = spec_u32_bytes(order, type_) + body + spec_zeros(spec_padding(body.len()))
        + rest;
    let after_type = body + spec_zeros(spec_padding(body.len())) + rest;
    lemma_pod_len(order, type_, body);
    lemma_u32_bytes(order, size);
    lemma_u32_bytes(order, type_);
    assert(pod + rest =~= spec_u32_bytes(order, size) + after_size);
    lemma_u32_front(order, size, after_size);
    assert(after_size =~= spec_u32_bytes(order, type_) + after_type);
    lemma_u32_front(order, type_, after_type);
    assert((pod + rest).subrange(8, 8 + body.len() as int) =~= body);
    assert((pod + rest).skip(pod.len() as int) =~= rest);
}

/// The bytes before the first zero byte are all the bytes that come before
/// a zero byte and hold none themselves.
pub proof fn lemma_cstr_len(text: Seq<u8>, rest: Seq<u8>)
    requires
        !spec_has_zero(text),
    ensures
        spec_cstr_len(text.push(0u8) + rest) == text.len(),
    decreases text.len(),
{
    let bytes = text.push(0u8) + rest;
    if text.len() > 0 {
        assert(bytes[0] == text[0]);
        assert(text[0] != 0);
        assert(!spec_has_zero(text.drop_first())) by {
            if spec_has_zero(text.drop_first()) {
                let i = choose|i: int|
                    0 <= i < text.drop_first().len() && text.drop_first()[i] == 0;
                assert(text[i + 1] == 0);
            }
        }
        lemma_cstr_len(text.drop_first(), rest);
        assert(bytes.drop_first() =~= text.drop_first().push(0u8) + rest);
    } else {
        assert(bytes[0] == 0);
    }
}

/// A string without a zero byte is read back from its body.
pub proof fn lemma_string_roundtrip(text: Seq<char>)
    requires
        !spec_has_zero(encode_utf8(text)),
    ensures
        spec_parse_string(encode_utf8(text).push(0u8)) == Ok::<Seq<char>, DeserializeError>(text),
{
    let bytes = encode_utf8(text);
    let body = bytes.push(0u8);
    lemma_cstr_len(bytes, Seq::empty());
    assert(body + Seq::<u8>::empty() =~= body);
    assert(body.take(bytes.len() as int) =~= bytes);
    vstd::utf8::encode_utf8_valid_utf8(text);
    vstd::utf8::encode_utf8_decode_utf8(text);
}

/// The kind of a type tag of a kind is that kind; the other tags that a
/// value can have are of no kind.
pub proof fn lemma_kind_of_type(kind: Kind)
    ensures
        Kind::spec_from_type(kind.spec_type()) == Some(kind),
        Kind::spec_from_type(super::model::SPA_TYPE_STRING) is None,
        Kind::spec_from_type(super::model::SPA_TYPE_BYTES) is None,
        Kind::spec_from_type(super::model::SPA_TYPE_ARRAY) is None,
        Kind::spec_from_type(super::model::SPA_TYPE_STRUCT) is None,
        Kind::spec_from_type(super::model::SPA_TYPE_OBJECT) is None,
        Kind::spec_from_type(super::model::SPA_TYPE_CHOICE) is None,
        Kind::spec_from_type(super::model::SPA_TYPE_POINTER) is None,
{
}

/// An array is read back from its body, unless it is an array of empty
/// values that has elements: their number is not on the wire.
pub proof fn lemma_array_roundtrip(order: ByteOrder, kind: Kind, elements: Seq<Fixed>)
    requires
        spec_all_of_kind(kind, elements),
        kind == Kind::Null ==> elements.len() == 0,
    ensures
        spec_parse_array(
            order,
            spec_header(order, kind.spec_size(), kind.spec_type()) + spec_bodies(order, elements),
        ) == Ok::<(Kind, Seq<Fixed>), DeserializeError>((kind, elements)),
{
    let size = kind.spec_size();
    let bodies = spec_bodies(order, elements);
    let body = spec_header(order, size, kind.spec_type()) + bodies;
    let after_size = spec_u32_bytes(order, kind.spec_type()) + bodies;
    lemma_header_len(order, size, kind.spec_type());
    assert(body =~= spec_u32_bytes(order, size) + after_size);
    lemma_u32_front(order, size, after_size);
    lemma_u32_front(order, kind.spec_type(), bodies);
    lemma_kind_of_type(kind);
    lemma_bodies_len(order, kind, elements);
    assert(body.skip(8) =~= bodies);
    assert(bodies + Seq::<u8>::empty() =~= bodies);
    lemma_values_roundtrip(order, kind, elements, Seq::empty());
    if size == 0 {
        assert(elements =~= Seq::empty());
    } else {
        crate::arith::lemma_multiple(elements.len() as int, size as int);
    }
}

/// The values of a choice make that choice again.
pub proof fn lemma_choice_values(choice: ChoiceEnumView)
    ensures
        ChoiceEnumView::spec_from_values(choice.spec_type(), choice.spec_values()) == Ok::<
            ChoiceEnumView,
            DeserializeError,
        >(choice),
{
    match choice {
        ChoiceEnumView::Enum(default, alternatives) => {
            assert(choice.spec_values().skip(1) =~= alternatives);
        },
        ChoiceEnumView::Flags(default, flags) => {
            assert(choice.spec_values().skip(1) =~= flags);
        },
        _ => {},
    }
}

/// A choice is read back from its body.
pub proof fn lemma_choice_roundtrip(order: ByteOrder, choice: ChoiceView)
    requires
        choice.kind != Kind::Null,
        spec_all_of_kind(choice.kind, choice.choice.spec_values()),
    ensures
        spec_parse_choice(order, ValueView::Choice(choice).spec_body(order)) == Ok::<
            ChoiceView,
            DeserializeError,
        >(choice),
{
    let kind = choice.kind;
    let size = kind.spec_size();
    let values = choice.choice.spec_values();
    let bodies = spec_bodies(order, values);
    let body = ValueView::Choice(choice).spec_body(order);
    let after_child_size = spec_u32_bytes(order, kind.spec_type()) + bodies;
    let after_flags = spec_u32_bytes(order, size) + after_child_size;
    let after_type = spec_u32_bytes(order, choice.flags) + after_flags;
    lemma_u32_bytes(order, choice.choice.spec_type());
    lemma_u32_bytes(order, choice.flags);
    lemma_header_len(order, size, kind.spec_type());
    assert(body =~= spec_u32_bytes(order, choice.choice.spec_type()) + after_type);
    lemma_u32_front(order, choice.choice.spec_type(), after_type);
    lemma_u32_front(order, choice.flags, after_flags);
    lemma_u32_front(order, size, after_child_size);
    lemma_u32_front(order, kind.spec_type(), bodies);
    assert(body.skip(4) =~= after_type);
    assert(body.skip(8) =~= after_flags);
    assert(body.skip(12) =~= after_child_size);
    assert(body.skip(16) =~= bodies);
    lemma_kind_of_type(kind);
    lemma_bodies_len(order, kind, values);
    assert(bodies + Seq::<u8>::empty() =~= bodies);
    lemma_values_roundtrip(order, kind, values, Seq::empty());
    lemma_choice_values(choice.choice);
    crate::arith::lemma_multiple(values.len() as int, size as int);
}

/// The pods of two sequences of values, one after the other, are the pods
/// of the two sequences joined.
pub proof fn lemma_encode_all_concat(order: ByteOrder, a: Seq<ValueView>, b: Seq<ValueView>)
    ensures
        spec_encode_all(order, a + b) == spec_encode_all(order, a) + spec_encode_all(order, b),
    decreases b.len(),
{
    if b.len() == 0 {
        assert(a + b =~= a);
        assert(spec_encode_all(order, b) =~= Seq::<u8>::empty());
        assert(spec_encode_all(order, a) + Seq::<u8>::empty() =~= spec_encode_all(order, a));
    } else {
        lemma_encode_all_concat(order, a, b.drop_last());
        assert((a + b).drop_last() =~= a + b.drop_last());
        assert((a + b).last() == b.last());
        assert(spec_encode_all(order, a + b) == spec_encode_all(order, (a + b).drop_last()) + (a
            + b).last().spec_encode(order));
        assert(spec_encode_all(order, b) == spec_encode_all(order, b.drop_last())
            + b.last().spec_encode(order));
        assert(spec_encode_all(order, a + b) =~= spec_encode_all(order, a) + spec_encode_all(
            order,
            b,
        ));
    }
}

/// The pods of values are the pod of the first, and then the pods of the
/// others.
pub proof fn lemma_encode_all_first(order: ByteOrder, values: Seq<ValueView>)
    requires
        values.len() > 0,
    ensures
        spec_encode_all(order, values) == values[0].spec_encode(order) + spec_encode_all(
            order,
            values.skip(1),
        ),
{
    let one = seq![values[0]];
    assert(one.drop_last() =~= Seq::<ValueView>::empty());
    assert(spec_encode_all(order, one.drop_last()) =~= Seq::<u8>::empty());
    assert(spec_encode_all(order, one) == spec_encode_all(order, one.drop_last())
        + one.last().spec_encode(order));
    assert(spec_encode_all(order, one) =~= values[0].spec_encode(order));
    assert(values =~= one + values.skip(1));
    lemma_encode_all_concat(order, one, values.skip(1));
}

/// How one property stands in the body of an object.
pub open spec fn spec_encode_property(order: ByteOrder, property: PropertyView) -> Seq<u8> {
    spec_u32_bytes(order, property.key) + spec_u32_bytes(order, property.flags)
        + property.value.spec_encode(order)
}

/// Two sequences of properties, one after the other, stand as the two
/// sequences joined.
pub proof fn lemma_encode_properties_concat(
    order: ByteOrder,
    a: Seq<PropertyView>,
    b: Seq<PropertyView>,
)
    ensures
        spec_encode_properties(order, a + b) == spec_encode_properties(order, a)
            + spec_encode_properties(order, b),
    decreases b.len(),
{
    if b.len() == 0 {
        assert(a + b =~= a);
        assert(spec_encode_properties(order, b) =~= Seq::<u8>::empty());
        assert(spec_encode_properties(order, a) + Seq::<u8>::empty() =~= spec_encode_properties(
            order,
            a,
        ));
    } else {
        lemma_encode_properties_concat(order, a, b.drop_last());
        assert((a + b).drop_last() =~= a + b.drop_last());
        assert((a + b).last() == b.last());
        assert(spec_encode_properties(order, a + b) == spec_encode_properties(
            order,
            (a + b).drop_last(),
        ) + spec_encode_property(order, (a + b).last()));
        assert(spec_encode_properties(order, b) == spec_encode_properties(order, b.drop_last())
            + spec_encode_property(order, b.last()));
        assert(spec_encode_properties(order, a + b) =~= spec_encode_properties(order, a)
            + spec_encode_properties(order, b));
    }
}

/// Properties stand as the first of them, and then the others.
pub proof fn lemma_encode_properties_first(order: ByteOrder, properties: Seq<PropertyView>)
    requires
        properties.len() > 0,
    ensures
        spec_encode_properties(order, properties) == spec_encode_property(order, properties[0])
            + spec_encode_properties(order, properties.skip(1)),
{
    let one = seq![properties[0]];
    assert(one.drop_last() =~= Seq::<PropertyView>::empty());
    assert(spec_encode_properties(order, one.drop_last()) =~= Seq::<u8>::empty());
    assert(spec_encode_properties(order, one) == spec_encode_properties(order, one.drop_last())
        + spec_encode_property(order, one.last()));
    assert(spec_encode_properties(order, one) =~= spec_encode_property(order, properties[0]));
    assert(properties =~= one + properties.skip(1));
    lemma_encode_properties_concat(order, one, properties.skip(1));
}

/// If nothing stands in the way of encoding values, nothing stands in the
/// way of encoding any of them.
pub proof fn lemma_check_all_each(order: ByteOrder, values: Seq<ValueView>)
    requires
        super::model::spec_check_all(order, values) is None,
    ensures
        forall|i: int| 0 <= i < values.len() ==> (#[trigger] values[i]).spec_check(order) is None,
    decreases values.len(),
{
    if values.len() > 0 {
        assert(super::model::spec_check_all(order, values) == match super::model::spec_check_all(
            order,
            values.drop_last(),
        ) {
            Some(e) => Some(e),
            None => values.last().spec_check(order),
        });
        lemma_check_all_each(order, values.drop_last());
        assert forall|i: int| 0 <= i < values.len() implies (#[trigger] values[i]).spec_check(
            order,
        ) is None by {
            if i < values.len() - 1 {
                assert(values[i] == values.drop_last()[i]);
            }
        }
    }
}

/// If nothing stands in the way of encoding properties, nothing stands in
/// the way of encoding the value of any of them.
pub proof fn lemma_check_properties_each(order: ByteOrder, properties: Seq<PropertyView>)
    requires
        super::model::spec_check_properties(order, properties) is None,
    ensures
        forall|i: int|
            0 <= i < properties.len() ==> (#[trigger] properties[i]).value.spec_check(order)
                is None,
    decreases properties.len(),
{
    if properties.len() > 0 {
        assert(super::model::spec_check_properties(order, properties)
            == match super::model::spec_check_properties(order, properties.drop_last()) {
            Some(e) => Some(e),
            None => properties.last().value.spec_check(order),
        });
        lemma_check_properties_each(order, properties.drop_last());
        assert forall|i: int| 0 <= i < properties.len() implies (
        #[trigger] properties[i]).value.spec_check(order) is None by {
            if i < properties.len() - 1 {
                assert(properties[i] == properties.drop_last()[i]);
            }
        }
    }
}

/// The body of a value that can be encoded fits the size field of a pod.
pub proof fn lemma_body_fits(order: ByteOrder, value: ValueView)
    requires
        value.spec_check(order) is None,
    ensures
        value.spec_body(order).len() <= u32::MAX,
{
    match value {
        ValueView::Fixed(fixed) => {
            lemma_fixed_body_len(order, fixed);
        },
        ValueView::Array(kind, elements) => {
            lemma_header_len(order, kind.spec_size(), kind.spec_type());
        },
        ValueView::Object(type_, id, properties) => {
            lemma_u32_bytes(order, type_);
            lemma_u32_bytes(order, id);
        },
        ValueView::Choice(choice) => {
            lemma_u32_bytes(order, choice.choice.spec_type());
            lemma_u32_bytes(order, choice.flags);
            lemma_header_len(order, choice.kind.spec_size(), choice.kind.spec_type());
        },
        ValueView::Pointer(type_, address) => {
            lemma_u32_bytes(order, type_);
            lemma_u32_bytes(order, 0);
            lemma_u64_bytes(order, address);
        },
        _ => {},
    }
}

/// The type and the id of an object are read back from the front of its
/// body, and its properties follow them.
pub proof fn lemma_object_front(order: ByteOrder, type_: u32, id: u32, rest: Seq<u8>)
    ensures
        ({
            let body = spec_u32_bytes(order, type_) + spec_u32_bytes(order, id) + rest;
            &&& body.len() >= 8
            &&& spec_u32_from_bytes(order, body) == type_
            &&& spec_u32_from_bytes(order, body.skip(4)) == id
            &&& body.skip(8) == rest
        }),
{
    let body = spec_u32_bytes(order, type_) + spec_u32_bytes(order, id) + rest;
    let after_type = spec_u32_bytes(order, id) + rest;
    assert(body =~= spec_u32_bytes(order, type_) + after_type);
    lemma_u32_front(order, type_, after_type);
    lemma_u32_front(order, id, rest);
    lemma_u32_bytes(order, type_);
    lemma_u32_bytes(order, id);
    assert(body.skip(4) =~= after_type);
    assert(body.skip(8) =~= rest);
}

/// The type and the address of a pointer are read back from its body.
pub proof fn lemma_pointer_front(order: ByteOrder, type_: u32, address: u64)
    ensures
        ({
            let body = spec_u32_bytes(order, type_) + spec_u32_bytes(order, 0) + spec_u64_bytes(
                order,
                address,
            );
            &&& body.len() == 16
            &&& spec_u32_from_bytes(order, body) == type_
            &&& spec_u64_from_bytes(order, body.skip(8)) == address
        }),
{
    let body = spec_u32_bytes(order, type_) + spec_u32_bytes(order, 0) + spec_u64_bytes(
        order,
        address,
    );
    let after_pad = spec_u64_bytes(order, address);
    let after_type = spec_u32_bytes(order, 0) + after_pad;
    assert(body =~= spec_u32_bytes(order, type_) + after_type);
    lemma_u32_front(order, type_, after_type);
    lemma_u32_front(order, 0, after_pad);
    lemma_u64_front(order, address, Seq::empty());
    lemma_u32_bytes(order, type_);
    lemma_u32_bytes(order, 0);
    lemma_u64_bytes(order, address);
    assert(after_pad + Seq::<u8>::empty() =~= after_pad);
    assert(body.skip(8) =~= after_pad);
}

/// A value is read back from the body of its pod.
pub proof fn lemma_body_roundtrip(order: ByteOrder, value: ValueView)
    requires
        value.spec_encodable(order),
    ensures
        super::model::spec_parse_body(order, value.spec_type(), value.spec_body(order)) == Ok::<
            ValueView,
            DeserializeError,
        >(value),
    decreases value, 1nat,
{
    let body = value.spec_body(order);
    let read = super::model::spec_parse_body(order, value.spec_type(), body);
    match value {
        ValueView::Fixed(fixed) => {
            lemma_kind_of_type(fixed.kind());
            lemma_fixed_body_len(order, fixed);
            lemma_fixed_roundtrip(order, fixed, Seq::empty());
            assert(body + Seq::<u8>::empty() =~= body);
        },
        ValueView::String(text) => {
            lemma_kind_of_type(Kind::Null);
            lemma_string_roundtrip(text);
        },
        ValueView::Bytes(bytes) => {
            lemma_kind_of_type(Kind::Null);
        },
        ValueView::Array(kind, elements) => {
            lemma_kind_of_type(Kind::Null);
            lemma_array_roundtrip(order, kind, elements);
        },
        ValueView::Struct(fields) => {
            lemma_kind_of_type(Kind::Null);
            lemma_check_all_each(order, fields);
            lemma_all_roundtrip(order, fields);
        },
        ValueView::Object(type_, id, properties) => {
            lemma_kind_of_type(Kind::Null);
            lemma_check_properties_each(order, properties);
            lemma_properties_roundtrip(order, properties);
            lemma_object_front(order, type_, id, spec_encode_properties(order, properties));
        },
        ValueView::Choice(choice) => {
            lemma_kind_of_type(Kind::Null);
            lemma_choice_roundtrip(order, choice);
        },
        ValueView::Pointer(type_, address) => {
            lemma_kind_of_type(Kind::Null);
            lemma_pointer_front(order, type_, address);
        },
    }
}

/// Values are read back from their pods, which stand one after the other.
pub proof fn lemma_all_roundtrip(order: ByteOrder, values: Seq<ValueView>)
    requires
        forall|i: int| 0 <= i < values.len() ==> (#[trigger] values[i]).spec_encodable(order),
    ensures
        super::model::spec_parse_all(order, spec_encode_all(order, values)) == Ok::<
            Seq<ValueView>,
            DeserializeError,
        >(values),
    decreases values, 0nat,
{
    let bytes = spec_encode_all(order, values);
    if values.len() == 0 {
        assert(bytes =~= Seq::<u8>::empty());
        assert(values =~= Seq::<ValueView>::empty());
    } else {
        let first = values[0];
        let others = values.skip(1);
        let body = first.spec_body(order);
        let pod = spec_pod(order, first.spec_type(), body);
        let rest = spec_encode_all(order, others);
        lemma_encode_all_first(order, values);
        assert(first.spec_encode(order) == pod);
        lemma_body_fits(order, first);
        lemma_bounds_of_pod(order, first.spec_type(), body, rest);
        lemma_pod_len(order, first.spec_type(), body);
        lemma_body_roundtrip(order, first);
        assert forall|i: int| 0 <= i < others.len() implies (#[trigger] others[i]).spec_encodable(
            order,
        ) by {
            assert(others[i] == values[i + 1]);
        }
        lemma_all_roundtrip(order, others);
        assert(seq![first] + others =~= values);
    }
}

/// A property that is followed by anything is read back from the front: its
/// key, its flags, and the bounds and the body of the pod of its value.
pub proof fn lemma_property_front(order: ByteOrder, first: PropertyView, rest: Seq<u8>)
    requires
        first.value.spec_body(order).len() <= u32::MAX,
    ensures
        ({
            let body = first.value.spec_body(order);
            let pod = spec_pod(order, first.value.spec_type(), body);
            let bytes = spec_encode_property(order, first) + rest;
            &&& bytes.len() >= 8
            &&& spec_u32_from_bytes(order, bytes) == first.key
            &&& spec_u32_from_bytes(order, bytes.skip(4)) == first.flags
            &&& spec_bounds(order, bytes.skip(8)) == Ok::<PodBounds, DeserializeError>(
                PodBounds {
                    type_: first.value.spec_type(),
                    size: body.len() as int,
                    total: pod.len() as int,
                },
            )
            &&& bytes.subrange(16, 16 + body.len() as int) == body
            &&& bytes.skip(8 + pod.len() as int) == rest
        }),
{
    let body = first.value.spec_body(order);
    let pod = spec_pod(order, first.value.spec_type(), body);
    let bytes = spec_encode_property(order, first) + rest;
    let after_flags = pod + rest;
    let after_key = spec_u32_bytes(order, first.flags) + after_flags;
    assert(first.value.spec_encode(order) == pod);
    lemma_u32_bytes(order, first.key);
    lemma_u32_bytes(order, first.flags);
    assert(bytes =~= spec_u32_bytes(order, first.key) + after_key);
    lemma_u32_front(order, first.key, after_key);
    lemma_u32_front(order, first.flags, after_flags);
    assert(bytes.skip(4) =~= after_key);
    assert(bytes.skip(8) =~= after_flags);
    lemma_bounds_of_pod(order, first.value.spec_type(), body, rest);
    lemma_pod_len(order, first.value.spec_type(), body);
    assert(bytes.subrange(16, 16 + body.len() as int) =~= after_flags.subrange(
        8,
        8 + body.len() as int,
    ));
    assert(bytes.skip(8 + pod.len() as int) =~= after_flags.skip(pod.len() as int));
}

/// Properties are read back from where they stand one after the other.
pub proof fn lemma_properties_roundtrip(order: ByteOrder, properties: Seq<PropertyView>)
    requires
        forall|i: int|
            0 <= i < properties.len() ==> (#[trigger] properties[i]).value.spec_encodable(order),
    ensures
        super::model::spec_parse_properties(order, spec_encode_properties(order, properties))
            == Ok::<Seq<PropertyView>, DeserializeError>(properties),
    decreases properties, 0nat,
{
    let bytes = spec_encode_properties(order, properties);
    if properties.len() == 0 {
        assert(bytes =~= Seq::<u8>::empty());
        assert(properties =~= Seq::<PropertyView>::empty());
    } else {
        let first = properties[0];
        let others = properties.skip(1);
        let rest = spec_encode_properties(order, others);
        lemma_encode_properties_first(order, properties);
        lemma_body_fits(order, first.value);
        lemma_property_front(order, first, rest);
        lemma_body_roundtrip(order, first.value);
        assert forall|i: int| 0 <= i < others.len() implies (
        #[trigger] others[i]).value.spec_encodable(order) by {
            assert(others[i] == properties[i + 1]);
        }
        lemma_properties_roundtrip(order, others);
        assert(seq![first] + others =~= properties);
    }
}

/// Round-trip: the pod of a value is read back as that value, and as
/// nothing more than the pod.
///
/// This holds of every value that has a pod, but for arrays of empty values
/// that have elements: an array pod states the size of an element, which is
/// zero for them, and not their number.
pub proof fn lemma_roundtrip(order: ByteOrder, value: ValueView)
    requires
        value.spec_encodable(order),
    ensures
        super::model::spec_parse(order, value.spec_encode(order)) == Ok::<
            (ValueView, int),
            DeserializeError,
        >((value, value.spec_encode(order).len() as int)),
{
    let body = value.spec_body(order);
    let pod = spec_pod(order, value.spec_type(), body);
    assert(value.spec_encode(order) == pod);
    lemma_body_fits(order, value);
    lemma_bounds_of_pod(order, value.spec_type(), body, Seq::empty());
    assert(pod + Seq::<u8>::empty() =~= pod);
    lemma_body_roundtrip(order, value);
}

/// Alignment: the pod of a value is a multiple of 8 bytes long, and as long
/// as its header, the body whose size the header states, and the padding
/// that brings that size to a multiple of 8.
pub proof fn lemma_encode_aligned(order: ByteOrder, value: ValueView)
    requires
        value.spec_check(order) is None,
    ensures
        ({
            let pod = value.spec_encode(order);
            let size = spec_u32_from_bytes(order, pod) as int;
            &&& size == value.spec_body(order).len()
            &&& pod.len() % 8 == 0
            &&& pod.len() == 8 + size + (8 - size % 8) % 8
        }),
{
    let body = value.spec_body(order);
    let pod = spec_pod(order, value.spec_type(), body);
    assert(value.spec_encode(order) == pod);
    lemma_body_fits(order, value);
    lemma_pod_len(order, value.spec_type(), body);
    lemma_bounds_of_pod(order, value.spec_type(), body, Seq::empty());
    assert(pod + Seq::<u8>::empty() =~= pod);
}

/// Bounds safety: of bytes that begin with a whole pod, no shorter
/// beginning than the pod is read as a pod. What is cut off anywhere, in
/// the header, the body or the padding, is found to be truncated.
pub proof fn lemma_truncated_fails(order: ByteOrder, bytes: Seq<u8>, count: int)
    requires
        spec_bounds(order, bytes) is Ok,
        0 <= count < spec_bounds(order, bytes)->Ok_0.total,
    ensures
        spec_bounds(order, bytes.take(count)) == Err::<PodBounds, DeserializeError>(
            DeserializeError::Truncated,
        ),
        super::model::spec_parse(order, bytes.take(count)) == Err::<
            (ValueView, int),
            DeserializeError,
        >(DeserializeError::Truncated),
{
    if count >= 8 {
        lemma_u32_same(order, bytes, bytes.take(count));
    }
}

/// Bounds safety for the pod of a value: no proper beginning of it is read
/// as a pod.
pub proof fn lemma_truncated_encoding_fails(order: ByteOrder, value: ValueView, count: int)
    requires
        value.spec_check(order) is None,
        0 <= count < value.spec_encode(order).len(),
    ensures
        super::model::spec_parse(order, value.spec_encode(order).take(count)) == Err::<
            (ValueView, int),
            DeserializeError,
        >(DeserializeError::Truncated),
{
    let body = value.spec_body(order);
    let pod = spec_pod(order, value.spec_type(), body);
    assert(value.spec_encode(order) == pod);
    lemma_body_fits(order, value);
    lemma_bounds_of_pod(order, value.spec_type(), body, Seq::empty());
    assert(pod + Seq::<u8>::empty() =~= pod);
    lemma_truncated_fails(order, pod, count);
}

/// Round-trip for what [`PodSerializer`](super::serialize::PodSerializer)
/// writes and [`PodDeserializer`](super::deserialize::PodDeserializer)
/// reads: a value that can be serialized, and holds no array of empty values
/// with elements, is deserialized from its pod as it was.
pub proof fn lemma_value_roundtrip(order: ByteOrder, value: super::value::Value)
    requires
        value@.spec_check(order) is None,
        value@.spec_lossless(),
    ensures
        super::model::spec_parse(order, value@.spec_encode(order)) == Ok::<
            (ValueView, int),
            DeserializeError,
        >((value@, value@.spec_encode(order).len() as int)),
{
    super::laws::lemma_value_well_formed(value);
    lemma_roundtrip(order, value@);
}

/// Round-trip through bytes: what the serializer writes into an empty buffer
/// for a value is read by the deserializer as that value, and as all of the
/// bytes.
pub proof fn lemma_serialized_roundtrip(order: ByteOrder, value: super::value::Value)
    requires
        super::serialize::spec_serialize(order, Seq::empty(), value@) is Ok,
        value@.spec_lossless(),
    ensures
        ({
            let written = super::serialize::spec_serialize(order, Seq::empty(), value@)->Ok_0;
            &&& written.1 == written.0.len()
            &&& written.1 % 8 == 0
            &&& super::model::spec_parse(order, written.0) == Ok::<
                (ValueView, int),
                DeserializeError,
            >((value@, written.1))
        }),
{
    let pod = value@.spec_encode(order);
    assert(super::builder::spec_overwrite(Seq::<u8>::empty(), 0, pod) =~= pod);
    lemma_value_roundtrip(order, value);
    lemma_encode_aligned(order, value@);
}

} // verus!
