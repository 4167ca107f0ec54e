//! What holds of the pod format: facts that relate encoding, decoding and
//! the sizes of pods, proved from the definitions in [`crate::pod::model`].

use vstd::prelude::*;

use super::builder::{lemma_overwrite_patch, lemma_raw_raw, BuilderView, FrameView, Mode};
use super::canonical::CanonicalFixedSizedPod;
use super::model::{
    spec_all_of_kind, spec_bodies, spec_check_all, spec_check_properties, spec_encode_all,
    spec_encode_properties, Fixed, Kind, PropertyView, ValueView,
};
use super::value::{spec_property_views, spec_views, ChoiceValue, Property, Value, ValueArray};
use super::wire::{
    lemma_u32_bytes, lemma_u64_bytes, spec_header, spec_padding, spec_pod, spec_u32_bytes,
    spec_zeros, ByteOrder,
};
use crate::utils::{spec_fixed_seq, Choice, ChoiceEnum};

verus! {

/// The body of a fixed-size value has the size of its kind.
pub proof fn lemma_fixed_body_len(order: ByteOrder, value: Fixed)
    ensures
        value.spec_body(order).len() == value.kind().spec_size(),
{
    match value {
        Fixed::Null => {},
        Fixed::Bool(b) => lemma_u32_bytes(order, if b { 1u32 } else { 0u32 }),
        Fixed::Id(x) => lemma_u32_bytes(order, x),
        Fixed::Int(x) => lemma_u32_bytes(order, super::wire::spec_i32_bits(x)),
        Fixed::Long(x) => lemma_u64_bytes(order, super::wire::spec_i64_bits(x)),
        Fixed::Float(x) => lemma_u32_bytes(order, x),
        Fixed::Double(x) => lemma_u64_bytes(order, x),
        Fixed::Rectangle(w, h) => {
            lemma_u32_bytes(order, w);
            lemma_u32_bytes(order, h);
        },
        Fixed::Fraction(n, d) => {
            lemma_u32_bytes(order, n);
            lemma_u32_bytes(order, d);
        },
        Fixed::Fd(x) => lemma_u64_bytes(order, super::wire::spec_i64_bits(x)),
    }
}

/// A header is 8 bytes long.
pub proof fn lemma_header_len(order: ByteOrder, size: u32, type_: u32)
    ensures
        spec_header(order, size, type_).len() == 8,
{
    lemma_u32_bytes(order, size);
    lemma_u32_bytes(order, type_);
}

/// A pod is as long as its header, its body and its padding, which is a
/// multiple of 8.
pub proof fn lemma_pod_len(order: ByteOrder, type_: u32, body: Seq<u8>)
    ensures
        spec_pod(order, type_, body).len() == 8 + body.len() + spec_padding(body.len()),
        spec_pod(order, type_, body).len() % 8 == 0,
{
    lemma_header_len(order, body.len() as u32, type_);
}

/// Pods that stand one after the other end at a multiple of 8.
pub proof fn lemma_encode_all_aligned(order: ByteOrder, values: Seq<ValueView>)
    ensures
        spec_encode_all(order, values).len() % 8 == 0,
    decreases values.len(),
{
    if values.len() > 0 {
        let last = values.last();
        lemma_encode_all_aligned(order, values.drop_last());
        lemma_pod_len(order, last.spec_type(), last.spec_body(order));
        assert(last.spec_encode(order) == spec_pod(order, last.spec_type(), last.spec_body(order)));
        assert(spec_encode_all(order, values) == spec_encode_all(order, values.drop_last())
            + last.spec_encode(order));
    }
}

/// Properties that stand one after the other end at a multiple of 8.
pub proof fn lemma_encode_properties_aligned(order: ByteOrder, properties: Seq<PropertyView>)
    ensures
        spec_encode_properties(order, properties).len() % 8 == 0,
    decreases properties.len(),
{
    if properties.len() > 0 {
        let last = properties.last();
        lemma_encode_properties_aligned(order, properties.drop_last());
        lemma_pod_len(order, last.value.spec_type(), last.value.spec_body(order));
        lemma_u32_bytes(order, last.key);
        lemma_u32_bytes(order, last.flags);
        assert(last.value.spec_encode(order) == spec_pod(
            order,
            last.value.spec_type(),
            last.value.spec_body(order),
        ));
        assert(spec_encode_properties(order, properties) == spec_encode_properties(
            order,
            properties.drop_last(),
        ) + (spec_u32_bytes(order, last.key) + spec_u32_bytes(order, last.flags)
            + last.value.spec_encode(order)));
    }
}

/// The bodies of two sequences of values, one after the other, are the
/// bodies of the two sequences joined.
pub proof fn lemma_bodies_concat(order: ByteOrder, a: Seq<Fixed>, b: Seq<Fixed>)
    ensures
        spec_bodies(order, a + b) == spec_bodies(order, a) + spec_bodies(order, b),
    decreases b.len(),
{
    if b.len() == 0 {
        assert(a + b =~= a);
        assert(spec_bodies(order, a) + spec_bodies(order, b) =~= spec_bodies(order, a));
    } else {
        lemma_bodies_concat(order, a, b.drop_last());
        assert((a + b).drop_last() =~= a + b.drop_last());
        assert((a + b).last() == b.last());
        assert(spec_bodies(order, a + b) =~= spec_bodies(order, a) + spec_bodies(order, b));
    }
}

/// What stands in the way of the first values stands in the way of all.
pub proof fn lemma_check_all_prefix(order: ByteOrder, values: Seq<ValueView>, count: int)
    requires
        0 <= count <= values.len(),
        spec_check_all(order, values.take(count)) is Some,
    ensures
        spec_check_all(order, values) == spec_check_all(order, values.take(count)),
    decreases values.len() - count,
{
    if count < values.len() {
        assert(values.take(count + 1).drop_last() =~= values.take(count));
        lemma_check_all_prefix(order, values, count + 1);
    } else {
        assert(values.take(count) =~= values);
    }
}

/// What stands in the way of the first properties stands in the way of all.
pub proof fn lemma_check_properties_prefix(
    order: ByteOrder,
    properties: Seq<PropertyView>,
    count: int,
)
    requires
        0 <= count <= properties.len(),
        spec_check_properties(order, properties.take(count)) is Some,
    ensures
        spec_check_properties(order, properties) == spec_check_properties(
            order,
            properties.take(count),
        ),
    decreases properties.len() - count,
{
    if count < properties.len() {
        assert(properties.take(count + 1).drop_last() =~= properties.take(count));
        lemma_check_properties_prefix(order, properties, count + 1);
    } else {
        assert(properties.take(count) =~= properties);
    }
}

/// The views of values are the views of each of them, in their order.
pub proof fn lemma_views(values: Seq<Value>)
    ensures
        spec_views(values).len() == values.len(),
        forall|i: int| 0 <= i < values.len() ==> (#[trigger] spec_views(values)[i]) == values[i]@,
    decreases values.len(),
{
    if values.len() > 0 {
        lemma_views(values.drop_last());
        assert(spec_views(values) == spec_views(values.drop_last()).push(values.last()@));
    }
}

/// The views of properties are the views of each of them, in their order.
pub proof fn lemma_property_views(properties: Seq<Property>)
    ensures
        spec_property_views(properties).len() == properties.len(),
        forall|i: int|
            0 <= i < properties.len() ==> (#[trigger] spec_property_views(properties)[i])
                == properties[i]@,
    decreases properties.len(),
{
    if properties.len() > 0 {
        lemma_property_views(properties.drop_last());
        assert(spec_property_views(properties) == spec_property_views(
            properties.drop_last(),
        ).push(properties.last()@));
    }
}

/// In the mode for whole pods, adding a pod writes just its encoding.
pub proof fn lemma_primitive_is_raw(b: BuilderView, type_: u32, body: Seq<u8>)
    requires
        b.inv(),
        b.mode == Mode::Pods,
    ensures
        b.primitive(type_, body) == b.raw(spec_pod(b.order, type_, body)),
{
    lemma_raw_raw(
        b,
        spec_header(b.order, body.len() as u32, type_) + body,
        spec_zeros(spec_padding(body.len())),
    );
}

/// Closing a container leaves what a single write of its pod would have
/// left: the header with the size of the body, the body, and the padding.
///
/// `sub` is what opening the container wrote after its header, `content`
/// what was added since.
pub proof fn lemma_pop_is_raw(
    start: BuilderView,
    now: BuilderView,
    type_: u32,
    provisional: u32,
    sub: Seq<u8>,
    content: Seq<u8>,
)
    requires
        start.inv(),
        start.offset % 8 == 0,
        now.mode != Mode::FirstElement,
        now.frames == start.frames.push(
            FrameView { offset: start.offset, type_, mode: start.mode },
        ),
        now.order == start.order,
        now.data == start.raw(spec_header(start.order, provisional, type_) + sub + content).data,
        now.offset == start.offset + 8 + sub.len() + content.len(),
        sub.len() + content.len() <= u32::MAX,
    ensures
        now.top_size() == sub.len() + content.len(),
        now.pop() == start.raw(spec_pod(start.order, type_, sub + content)),
{
    let order = start.order;
    let body = sub + content;
    let first = spec_header(order, provisional, type_);
    let head = spec_header(order, body.len() as u32, type_);
    lemma_header_len(order, provisional, type_);
    lemma_header_len(order, body.len() as u32, type_);
    let written = first + sub + content;
    lemma_overwrite_patch(start.data, start.offset, written, 0, head);
    assert(written.take(0) + head + written.skip(8) =~= head + body);
    let fill = spec_zeros(spec_padding(body.len()));
    assert(spec_padding((start.offset + 8 + body.len()) as nat) == spec_padding(body.len()));
    assert(now.frames.drop_last() =~= start.frames);
    lemma_raw_raw(start, head + body, fill);
    assert(head + body + fill =~= spec_pod(order, type_, body));
}

/// The bodies of values and one more are the bodies of the values, and
/// then the body of that one.
pub proof fn lemma_bodies_push(order: ByteOrder, values: Seq<Fixed>, value: Fixed)
    ensures
        spec_bodies(order, values.push(value)) == spec_bodies(order, values) + value.spec_body(
            order,
        ),
{
    assert(values.push(value).drop_last() =~= values);
    assert(values.push(value).last() == value);
}

/// The bodies of values are the body of the first, and then the bodies of
/// the others.
pub proof fn lemma_bodies_first(order: ByteOrder, values: Seq<Fixed>)
    requires
        values.len() > 0,
    ensures
        spec_bodies(order, values) == values[0].spec_body(order) + spec_bodies(
            order,
            values.skip(1),
        ),
{
    let one = Seq::<Fixed>::empty().push(values[0]);
    lemma_bodies_push(order, Seq::empty(), values[0]);
    assert(spec_bodies(order, Seq::empty()) =~= Seq::<u8>::empty());
    assert(spec_bodies(order, one) =~= values[0].spec_body(order));
    assert(values =~= one + values.skip(1));
    lemma_bodies_concat(order, one, values.skip(1));
}

/// Adding an array whose elements are given as their bodies writes the pod
/// of the array.
pub proof fn lemma_array_is_raw(b: BuilderView, kind: Kind, bodies: Seq<u8>)
    requires
        b.inv(),
        8 + bodies.len() <= u32::MAX,
    ensures
        b.raw(
            spec_header(b.order, (8 + bodies.len()) as u32, super::model::SPA_TYPE_ARRAY)
                + spec_header(b.order, kind.spec_size(), kind.spec_type()) + bodies,
        ).pad(bodies.len() as int) == b.raw(
            spec_pod(
                b.order,
                super::model::SPA_TYPE_ARRAY,
                spec_header(b.order, kind.spec_size(), kind.spec_type()) + bodies,
            ),
        ),
{
    let order = b.order;
    let child = spec_header(order, kind.spec_size(), kind.spec_type());
    let body = child + bodies;
    let head = spec_header(order, (8 + bodies.len()) as u32, super::model::SPA_TYPE_ARRAY);
    lemma_header_len(order, kind.spec_size(), kind.spec_type());
    assert(spec_padding(bodies.len()) == spec_padding(body.len()));
    lemma_raw_raw(b, head + child + bodies, spec_zeros(spec_padding(body.len())));
    assert(head + child + bodies + spec_zeros(spec_padding(body.len())) =~= spec_pod(
        order,
        super::model::SPA_TYPE_ARRAY,
        body,
    ));
}

/// A choice that was opened, given its first value and then the bodies of
/// the others, and closed, leaves what a single write of its pod would have
/// left.
pub proof fn lemma_choice_is_raw(
    start: BuilderView,
    choice_type: u32,
    flags: u32,
    child_type: u32,
    first: Seq<u8>,
    tail: Seq<u8>,
)
    requires
        start.inv(),
        start.offset % 8 == 0,
    ensures
        ({
            let order = start.order;
            let sub = spec_u32_bytes(order, choice_type) + spec_u32_bytes(order, flags);
            let content = spec_header(order, first.len() as u32, child_type) + first + tail;
            let now = start.push(
                super::model::SPA_TYPE_CHOICE,
                spec_header(order, 8, super::model::SPA_TYPE_CHOICE) + spec_u32_bytes(
                    order,
                    choice_type,
                ) + spec_u32_bytes(order, flags),
            ).primitive(child_type, first).raw(tail);
            &&& now.top_size() == 16 + first.len() + tail.len()
            &&& now.frames.len() == start.frames.len() + 1
            &&& now.frames.last().offset == start.offset
            &&& 16 + first.len() + tail.len() <= u32::MAX ==> now.pop() == start.raw(
                spec_pod(order, super::model::SPA_TYPE_CHOICE, sub + content),
            )
        }),
{
    let order = start.order;
    let choice = super::model::SPA_TYPE_CHOICE;
    let sub = spec_u32_bytes(order, choice_type) + spec_u32_bytes(order, flags);
    let child = spec_header(order, first.len() as u32, child_type);
    let content = child + first + tail;
    let head = spec_header(order, 8, choice);
    let pushed = head + spec_u32_bytes(order, choice_type) + spec_u32_bytes(order, flags);
    let opened = start.push(choice, pushed);
    let now = opened.primitive(child_type, first).raw(tail);
    lemma_header_len(order, 8, choice);
    lemma_header_len(order, first.len() as u32, child_type);
    lemma_u32_bytes(order, choice_type);
    lemma_u32_bytes(order, flags);
    assert(pushed =~= head + sub);
    lemma_raw_raw(start, pushed, child + first);
    lemma_raw_raw(start, pushed + (child + first), tail);
    assert(pushed + (child + first) + tail =~= head + sub + content);
    if 16 + first.len() + tail.len() <= u32::MAX {
        lemma_pop_is_raw(start, now, choice, 8, sub, content);
    }
}

/// A header and a body that are written, and then padding for a size that
/// needs as much of it as the body, are the pod of the body.
pub proof fn lemma_padded_is_raw(b: BuilderView, type_: u32, body: Seq<u8>, size: int)
    requires
        b.inv(),
        size >= 0,
        spec_padding(size as nat) == spec_padding(body.len()),
    ensures
        b.raw(spec_header(b.order, body.len() as u32, type_) + body).pad(size) == b.raw(
            spec_pod(b.order, type_, body),
        ),
{
    lemma_raw_raw(
        b,
        spec_header(b.order, body.len() as u32, type_) + body,
        spec_zeros(spec_padding(body.len())),
    );
}

/// The pods of values and one more are the pods of the values, and then
/// the pod of that one.
pub proof fn lemma_encode_all_push(order: ByteOrder, values: Seq<ValueView>, value: ValueView)
    ensures
        spec_encode_all(order, values.push(value)) == spec_encode_all(order, values)
            + value.spec_encode(order),
        spec_check_all(order, values.push(value)) == match spec_check_all(order, values) {
            Some(e) => Some(e),
            None => value.spec_check(order),
        },
{
    assert(values.push(value).drop_last() =~= values);
    assert(values.push(value).last() == value);
    assert(spec_encode_all(order, values.push(value)) == spec_encode_all(
        order,
        values.push(value).drop_last(),
    ) + values.push(value).last().spec_encode(order));
    assert(spec_check_all(order, values.push(value)) == match spec_check_all(
        order,
        values.push(value).drop_last(),
    ) {
        Some(e) => Some(e),
        None => values.push(value).last().spec_check(order),
    });
}

/// Properties and one more stand as the properties, and then that one.
pub proof fn lemma_encode_properties_push(
    order: ByteOrder,
    properties: Seq<PropertyView>,
    property: PropertyView,
)
    ensures
        spec_encode_properties(order, properties.push(property)) == spec_encode_properties(
            order,
            properties,
        ) + (spec_u32_bytes(order, property.key) + spec_u32_bytes(order, property.flags)
            + property.value.spec_encode(order)),
        spec_check_properties(order, properties.push(property)) == match spec_check_properties(
            order,
            properties,
        ) {
            Some(e) => Some(e),
            None => property.value.spec_check(order),
        },
{
    let all = properties.push(property);
    assert(all.drop_last() =~= properties);
    assert(all.last() == property);
    assert(spec_encode_properties(order, all) == spec_encode_properties(order, all.drop_last())
        + (spec_u32_bytes(order, all.last().key) + spec_u32_bytes(order, all.last().flags)
        + all.last().value.spec_encode(order)));
    assert(spec_check_properties(order, all) == match spec_check_properties(
        order,
        all.drop_last(),
    ) {
        Some(e) => Some(e),
        None => all.last().value.spec_check(order),
    });
}

/// The values of a vector of one type are all of the kind of that type.
pub proof fn lemma_fixed_seq_kind<T: CanonicalFixedSizedPod>(values: Seq<T>)
    ensures
        spec_all_of_kind(T::spec_kind(), spec_fixed_seq(values)),
{
    assert forall|i: int| 0 <= i < values.len() implies (#[trigger] spec_fixed_seq(
        values,
    )[i]).kind() == T::spec_kind() by {
        values[i].lemma_fixed();
    }
}

/// The values of a choice over one type are all of the kind of that type.
pub proof fn lemma_choice_kind<T: CanonicalFixedSizedPod>(choice: Choice<T>)
    ensures
        choice@.kind == T::spec_kind(),
        spec_all_of_kind(T::spec_kind(), choice@.choice.spec_values()),
{
    let values = choice@.choice.spec_values();
    match choice.1 {
        ChoiceEnum::NoChoice(value) => {
            value.lemma_fixed();
        },
        ChoiceEnum::Range { default, min, max } => {
            default.lemma_fixed();
            min.lemma_fixed();
            max.lemma_fixed();
        },
        ChoiceEnum::Step { default, min, max, step } => {
            default.lemma_fixed();
            min.lemma_fixed();
            max.lemma_fixed();
            step.lemma_fixed();
        },
        ChoiceEnum::Enum { default, alternatives } => {
            default.lemma_fixed();
            lemma_fixed_seq_kind(alternatives@);
            assert forall|i: int| 0 <= i < values.len() implies (#[trigger] values[i]).kind()
                == T::spec_kind() by {
                if i > 0 {
                    assert(values[i] == spec_fixed_seq(alternatives@)[i - 1]);
                }
            }
        },
        ChoiceEnum::Flags { default, flags } => {
            default.lemma_fixed();
            lemma_fixed_seq_kind(flags@);
            assert forall|i: int| 0 <= i < values.len() implies (#[trigger] values[i]).kind()
                == T::spec_kind() by {
                if i > 0 {
                    assert(values[i] == spec_fixed_seq(flags@)[i - 1]);
                }
            }
        },
    }
}

/// What a value is, is well formed: its arrays and choices hold values of
/// their own kind.
pub proof fn lemma_value_well_formed(value: Value)
    ensures
        value@.spec_well_formed(),
    decreases value,
{
    match value {
        Value::ValueArray(array) => {
            match array {
                ValueArray::Null(elements) => lemma_fixed_seq_kind(elements@),
                ValueArray::Bool(elements) => lemma_fixed_seq_kind(elements@),
                ValueArray::Id(elements) => lemma_fixed_seq_kind(elements@),
                ValueArray::Int(elements) => lemma_fixed_seq_kind(elements@),
                ValueArray::Long(elements) => lemma_fixed_seq_kind(elements@),
                ValueArray::Float(elements) => lemma_fixed_seq_kind(elements@),
                ValueArray::Double(elements) => lemma_fixed_seq_kind(elements@),
                ValueArray::Rectangle(elements) => lemma_fixed_seq_kind(elements@),
                ValueArray::Fraction(elements) => lemma_fixed_seq_kind(elements@),
                ValueArray::Fd(elements) => lemma_fixed_seq_kind(elements@),
            }
        },
        Value::Struct(fields) => {
            lemma_views(fields@);
            assert forall|i: int| 0 <= i < fields@.len() implies (#[trigger] spec_views(
                fields@,
            )[i]).spec_well_formed() by {
                lemma_value_well_formed(fields@[i]);
            }
        },
        Value::Object(object) => {
            lemma_property_views(object.properties@);
            assert forall|i: int| 0 <= i < object.properties@.len() implies (
            #[trigger] spec_property_views(object.properties@)[i]).value.spec_well_formed() by {
                lemma_value_well_formed(object.properties@[i].value);
            }
        },
        Value::Choice(choice) => {
            match choice {
                ChoiceValue::Bool(inner) => lemma_choice_kind(inner),
                ChoiceValue::Int(inner) => lemma_choice_kind(inner),
                ChoiceValue::Long(inner) => lemma_choice_kind(inner),
                ChoiceValue::Float(inner) => lemma_choice_kind(inner),
                ChoiceValue::Double(inner) => lemma_choice_kind(inner),
                ChoiceValue::Id(inner) => lemma_choice_kind(inner),
                ChoiceValue::Rectangle(inner) => lemma_choice_kind(inner),
                ChoiceValue::Fraction(inner) => lemma_choice_kind(inner),
                ChoiceValue::Fd(inner) => lemma_choice_kind(inner),
            }
        },
        _ => {},
    }
}

} // verus!
