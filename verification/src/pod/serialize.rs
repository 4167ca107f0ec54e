//! Serializing values into pods.
//!
//! A value is written through a [`Builder`]: fixed-size values, strings and
//! bytes as one pod each, structs, objects and choices as a container that
//! is opened, filled and closed.

use vstd::prelude::*;
use vstd::utf8::encode_utf8;

use super::builder::{lemma_raw_empty, lemma_raw_raw, Builder, Mode};
use super::canonical::{CanonicalFixedSizedPod, FixedSizedPod};
use super::laws::{
    lemma_array_is_raw, lemma_bodies_first, lemma_bodies_push, lemma_check_all_prefix,
    lemma_check_properties_prefix, lemma_choice_is_raw, lemma_encode_all_aligned,
    lemma_encode_all_push, lemma_encode_properties_aligned, lemma_encode_properties_push,
    lemma_fixed_body_len, lemma_header_len, lemma_padded_is_raw, lemma_pop_is_raw,
    lemma_primitive_is_raw, lemma_property_views, lemma_views,
};
use super::model::{
    spec_bodies, spec_check_all, spec_check_properties, spec_encode_all, spec_encode_properties,
    spec_has_zero, Fixed, SerializeError, ValueView, SPA_CHOICE_ENUM, SPA_CHOICE_FLAGS,
    SPA_CHOICE_NONE, SPA_CHOICE_RANGE, SPA_CHOICE_STEP, SPA_TYPE_OBJECT, SPA_TYPE_STRUCT,
};
use super::value::{
    spec_property_views, spec_views, ChoiceValue, Object, Property, Value, ValueArray,
};
use super::wire::{lemma_u32_bytes, spec_header, spec_pod, spec_u32_bytes, ByteOrder};
use crate::utils::{spec_fixed_seq, Choice, ChoiceEnum, Id};

verus! {

/// The result of serializing a value that `check` was found for.
pub open spec fn spec_outcome(check: Option<SerializeError>) -> Result<(), SerializeError> {
    match check {
        None => Ok(()),
        Some(e) => Err(e),
    }
}

/// Whether one of the bytes is zero.
pub fn has_zero(bytes: &[u8]) -> (r: bool)
    ensures
        r == spec_has_zero(bytes@),
{
    let mut i: usize = 0;
    while i < bytes.len()
        invariant
            i <= bytes@.len(),
            forall|j: int| 0 <= j < i ==> bytes@[j] != 0,
        decreases bytes@.len() - i,
    {
        if bytes[i] == 0 {
            return true;
        }
        i += 1;
    }
    false
}

/// The bodies of the given values, one after the other.
pub fn bodies_of<T: CanonicalFixedSizedPod>(order: ByteOrder, values: &Vec<T>) -> (r: Vec<u8>)
    ensures
        r@ == spec_bodies(order, spec_fixed_seq(values@)),
        r@.len() == values@.len() * T::spec_kind().spec_size(),
{
    let mut out: Vec<u8> = Vec::new();
    let mut i: usize = 0;
    while i < values.len()
        invariant
            i <= values@.len(),
            out@ == spec_bodies(order, spec_fixed_seq(values@.take(i as int))),
            out@.len() == i * T::spec_kind().spec_size(),
        decreases values@.len() - i,
    {
        let ghost before = spec_fixed_seq(values@.take(i as int));
        values[i].serialize_body(order, &mut out);
        proof {
            let after = spec_fixed_seq(values@.take(i + 1));
            assert(after.drop_last() =~= before);
            assert(after.last() == values@[i as int].spec_fixed());
            values@[i as int].lemma_fixed();
            lemma_fixed_body_len(order, values@[i as int].spec_fixed());
            crate::arith::lemma_products(i as int, 0, T::spec_kind().spec_size() as int);
        }
        i += 1;
    }
    assert(values@.take(values@.len() as int) =~= values@);
    out
}

/// Writes an array of values of one fixed-size kind.
pub fn serialize_array<T: CanonicalFixedSizedPod>(builder: &mut Builder, elements: &Vec<T>) -> (r:
    Result<(), SerializeError>)
    requires
        old(builder).inv(),
        old(builder)@.mode == Mode::Pods,
    ensures
        final(builder).inv(),
        r == spec_outcome(
            ValueView::Array(T::spec_kind(), spec_fixed_seq(elements@)).spec_check(
                old(builder)@.order,
            ),
        ),
        r is Ok ==> final(builder)@ == old(builder)@.raw(
            ValueView::Array(T::spec_kind(), spec_fixed_seq(elements@)).spec_encode(
                old(builder)@.order,
            ),
        ),
{
    let order = builder.order();
    let kind = T::kind();
    let bodies = bodies_of(order, elements);
    if bodies.len() > u32::MAX as usize - 8 {
        return Err(SerializeError::TooLarge);
    }
    let count: u32 = if kind.size() == 0 {
        0
    } else {
        proof {
            crate::arith::lemma_quotient_bounds(
                bodies@.len() as int,
                T::spec_kind().spec_size() as int,
                elements@.len() as int,
            );
            vstd::arithmetic::div_mod::lemma_div_is_ordered_by_denominator(
                bodies@.len() as int,
                1,
                T::spec_kind().spec_size() as int,
            );
        }
        elements.len() as u32
    };
    proof {
        vstd::arithmetic::mul::lemma_mul_is_commutative(
            kind.spec_size() as int,
            elements@.len() as int,
        );
        vstd::arithmetic::mul::lemma_mul_is_commutative(kind.spec_size() as int, count as int);
    }
    let done = builder.add_array(kind.size(), kind.type_(), count, bodies.as_slice());
    proof {
        lemma_array_is_raw(old(builder)@, kind, bodies@);
    }
    Ok(())
}

/// The number that says on the wire which sort of choice this is.
pub fn choice_type<T: CanonicalFixedSizedPod>(choice: &ChoiceEnum<T>) -> (r: u32)
    ensures
        r == choice@.spec_type(),
{
    match choice {
        ChoiceEnum::NoChoice(_) => SPA_CHOICE_NONE,
        ChoiceEnum::Range { .. } => SPA_CHOICE_RANGE,
        ChoiceEnum::Step { .. } => SPA_CHOICE_STEP,
        ChoiceEnum::Enum { .. } => SPA_CHOICE_ENUM,
        ChoiceEnum::Flags { .. } => SPA_CHOICE_FLAGS,
    }
}

/// The first value of a choice: the only one, or the default.
pub fn choice_default<T: CanonicalFixedSizedPod>(choice: &ChoiceEnum<T>) -> (r: &T)
    ensures
        r.spec_fixed() == choice@.spec_values()[0],
{
    match choice {
        ChoiceEnum::NoChoice(value) => value,
        ChoiceEnum::Range { default, .. } => default,
        ChoiceEnum::Step { default, .. } => default,
        ChoiceEnum::Enum { default, .. } => default,
        ChoiceEnum::Flags { default, .. } => default,
    }
}

/// The bodies of the values of a choice that follow the first.
pub fn choice_tail<T: CanonicalFixedSizedPod>(order: ByteOrder, choice: &ChoiceEnum<T>) -> (r: Vec<
    u8,
>)
    ensures
        r@ == spec_bodies(order, choice@.spec_values().skip(1)),
{
    let mut out: Vec<u8> = Vec::new();
    match choice {
        ChoiceEnum::NoChoice(_) => {
            assert(choice@.spec_values().skip(1) =~= Seq::empty());
        },
        ChoiceEnum::Range { default, min, max } => {
            min.serialize_body(order, &mut out);
            max.serialize_body(order, &mut out);
            proof {
                let none = Seq::<Fixed>::empty();
                lemma_bodies_push(order, none, min.spec_fixed());
                lemma_bodies_push(order, none.push(min.spec_fixed()), max.spec_fixed());
                assert(choice@.spec_values().skip(1) =~= none.push(min.spec_fixed()).push(
                    max.spec_fixed(),
                ));
            }
        },
        ChoiceEnum::Step { default, min, max, step } => {
            min.serialize_body(order, &mut out);
            max.serialize_body(order, &mut out);
            step.serialize_body(order, &mut out);
            proof {
                let none = Seq::<Fixed>::empty();
                let one = none.push(min.spec_fixed());
                let two = one.push(max.spec_fixed());
                lemma_bodies_push(order, none, min.spec_fixed());
                lemma_bodies_push(order, one, max.spec_fixed());
                lemma_bodies_push(order, two, step.spec_fixed());
                assert(choice@.spec_values().skip(1) =~= two.push(step.spec_fixed()));
            }
        },
        ChoiceEnum::Enum { default, alternatives } => {
            out = bodies_of(order, alternatives);
            assert(choice@.spec_values().skip(1) =~= spec_fixed_seq(alternatives@));
        },
        ChoiceEnum::Flags { default, flags } => {
            out = bodies_of(order, flags);
            assert(choice@.spec_values().skip(1) =~= spec_fixed_seq(flags@));
        },
    }
    out
}

/// Writes a choice: a container with the sort and the flags of the choice,
/// then the default, which gives the size and type of the values, then the
/// values that follow it.
pub fn serialize_choice<T: CanonicalFixedSizedPod>(builder: &mut Builder, choice: &Choice<T>) -> (r:
    Result<(), SerializeError>)
    requires
        old(builder).inv(),
        old(builder)@.mode == Mode::Pods,
        old(builder)@.offset % 8 == 0,
    ensures
        final(builder).inv(),
        r == spec_outcome(ValueView::Choice(choice@).spec_check(old(builder)@.order)),
        r is Ok ==> final(builder)@ == old(builder)@.raw(
            ValueView::Choice(choice@).spec_encode(old(builder)@.order),
        ),
{
    let order = builder.order();
    let default = choice_default(&choice.1);
    let tail = choice_tail(order, &choice.1);
    let frame = builder.push_choice(choice_type(&choice.1), choice.0.bits()).unwrap();
    builder.add_fixed(default);
    builder.raw(tail.as_slice());
    proof {
        let values = choice@.choice.spec_values();
        let first = default.spec_fixed().spec_body(order);
        default.lemma_fixed();
        lemma_fixed_body_len(order, default.spec_fixed());
        lemma_bodies_first(order, values);
        lemma_choice_is_raw(
            old(builder)@,
            choice@.choice.spec_type(),
            choice@.flags,
            T::spec_kind().spec_type(),
            first,
            tail@,
        );
        let sub = spec_u32_bytes(order, choice@.choice.spec_type()) + spec_u32_bytes(
            order,
            choice@.flags,
        );
        let child = spec_header(order, first.len() as u32, T::spec_kind().spec_type());
        assert(sub + (child + first + tail@) =~= ValueView::Choice(choice@).spec_body(order));
        lemma_header_len(order, first.len() as u32, T::spec_kind().spec_type());
        lemma_u32_bytes(order, choice@.choice.spec_type());
        lemma_u32_bytes(order, choice@.flags);
        assert(ValueView::Choice(choice@).spec_check(order) == if 16 + spec_bodies(
            order,
            values,
        ).len() > u32::MAX {
            Some(SerializeError::TooLarge)
        } else {
            None
        });
    }
    let ghost size = builder@.top_size();
    let ghost check = ValueView::Choice(choice@).spec_check(order);
    assert(check is None <==> size <= u32::MAX);
    assert(builder.is_top(frame));
    let popped = builder.checked_pop(&frame);
    assert(popped is Ok <==> size <= u32::MAX);
    match popped {
        Ok(()) => Ok(()),
        Err(_) => Err(SerializeError::TooLarge),
    }
}

/// Writes the pod of a value of a fixed-size kind.
pub fn serialize_fixed<T: CanonicalFixedSizedPod>(builder: &mut Builder, value: &T)
    requires
        old(builder).inv(),
        old(builder)@.mode == Mode::Pods,
    ensures
        final(builder).inv(),
        final(builder)@ == old(builder)@.raw(
            ValueView::Fixed(value.spec_fixed()).spec_encode(old(builder)@.order),
        ),
{
    builder.add_fixed(value);
    proof {
        let order = old(builder)@.order;
        let view = ValueView::Fixed(value.spec_fixed());
        value.lemma_fixed();
        lemma_primitive_is_raw(
            old(builder)@,
            T::spec_kind().spec_type(),
            value.spec_fixed().spec_body(order),
        );
        assert(view.spec_body(order) == value.spec_fixed().spec_body(order));
        assert(view.spec_encode(order) == spec_pod(order, view.spec_type(), view.spec_body(order)));
    }
}

/// Writes the pod of a value that converts to a fixed-size kind: the pod of
/// what it converts to.
pub fn serialize_fixed_sized_pod<P: FixedSizedPod>(builder: &mut Builder, pod: &P)
    requires
        old(builder).inv(),
        old(builder)@.mode == Mode::Pods,
    ensures
        final(builder).inv(),
        exists|canonical: P::CanonicalType|
            pod.spec_converts(canonical) && final(builder)@ == #[trigger] old(builder)@.raw(
                ValueView::Fixed(canonical.spec_fixed()).spec_encode(old(builder)@.order),
            ),
{
    let canonical = pod.as_canonical_type();
    serialize_fixed(builder, &canonical);
}

/// Writes the pods of the given values, one after the other.
pub fn serialize_fields(builder: &mut Builder, fields: &Vec<Value>) -> (r: Result<
    (),
    SerializeError,
>)
    requires
        old(builder).inv(),
        old(builder)@.mode == Mode::Pods,
        old(builder)@.offset % 8 == 0,
    ensures
        final(builder).inv(),
        r == spec_outcome(spec_check_all(old(builder)@.order, spec_views(fields@))),
        r is Ok ==> final(builder)@ == old(builder)@.raw(
            spec_encode_all(old(builder)@.order, spec_views(fields@)),
        ),
    decreases fields, 0nat,
{
    let ghost start = builder@;
    let ghost order = start.order;
    let ghost views = spec_views(fields@);
    proof {
        lemma_views(fields@);
        lemma_raw_empty(start);
        assert(views.take(0) =~= Seq::empty());
        assert(spec_encode_all(order, views.take(0)) =~= Seq::<u8>::empty());
    }
    let mut i: usize = 0;
    while i < fields.len()
        invariant
            i <= fields@.len(),
            views == spec_views(fields@),
            views.len() == fields@.len(),
            forall|j: int| 0 <= j < fields@.len() ==> (#[trigger] views[j]) == fields@[j]@,
            start == old(builder)@,
            start.inv(),
            start.mode == Mode::Pods,
            start.offset % 8 == 0,
            start.order == order,
            builder.inv(),
            builder@ == start.raw(spec_encode_all(order, views.take(i as int))),
            spec_check_all(order, views.take(i as int)) is None,
        decreases fields@.len() - i,
    {
        let ghost before = views.take(i as int);
        proof {
            lemma_encode_all_aligned(order, before);
            lemma_encode_all_push(order, before, views[i as int]);
            assert(views.take(i + 1) =~= before.push(views[i as int]));
        }
        let done = serialize_value(builder, &fields[i]);
        match done {
            Ok(()) => {
                proof {
                    lemma_raw_raw(
                        start,
                        spec_encode_all(order, before),
                        views[i as int].spec_encode(order),
                    );
                }
            },
            Err(e) => {
                proof {
                    assert(views[i as int].spec_check(order) == Some(e));
                    assert(spec_check_all(order, views.take(i + 1)) == Some(e));
                    lemma_check_all_prefix(order, views, i + 1);
                }
                return Err(e);
            },
        }
        i += 1;
    }
    proof {
        assert(views.take(fields@.len() as int) =~= views);
    }
    Ok(())
}

/// Writes the given properties, one after the other: for each, its key, its
/// flags and the pod of its value.
pub fn serialize_properties(builder: &mut Builder, properties: &Vec<Property>) -> (r: Result<
    (),
    SerializeError,
>)
    requires
        old(builder).inv(),
        old(builder)@.mode == Mode::Pods,
        old(builder)@.offset % 8 == 0,
    ensures
        final(builder).inv(),
        r == spec_outcome(
            spec_check_properties(old(builder)@.order, spec_property_views(properties@)),
        ),
        r is Ok ==> final(builder)@ == old(builder)@.raw(
            spec_encode_properties(old(builder)@.order, spec_property_views(properties@)),
        ),
    decreases properties, 0nat,
{
    let ghost start = builder@;
    let ghost order = start.order;
    let ghost views = spec_property_views(properties@);
    proof {
        lemma_property_views(properties@);
        lemma_raw_empty(start);
        assert(views.take(0) =~= Seq::empty());
        assert(spec_encode_properties(order, views.take(0)) =~= Seq::<u8>::empty());
    }
    let mut i: usize = 0;
    while i < properties.len()
        invariant
            i <= properties@.len(),
            views == spec_property_views(properties@),
            views.len() == properties@.len(),
            forall|j: int| 0 <= j < properties@.len() ==> (#[trigger] views[j]) == properties@[j]@,
            start == old(builder)@,
            start.inv(),
            start.mode == Mode::Pods,
            start.offset % 8 == 0,
            start.order == order,
            builder.inv(),
            builder@ == start.raw(spec_encode_properties(order, views.take(i as int))),
            spec_check_properties(order, views.take(i as int)) is None,
        decreases properties@.len() - i,
    {
        let ghost before = views.take(i as int);
        let ghost view = views[i as int];
        let ghost key = spec_u32_bytes(order, view.key) + spec_u32_bytes(order, view.flags);
        let property = &properties[i];
        proof {
            lemma_encode_properties_aligned(order, before);
            lemma_encode_properties_push(order, before, view);
            assert(views.take(i + 1) =~= before.push(view));
            lemma_u32_bytes(order, view.key);
            lemma_u32_bytes(order, view.flags);
            assert(view == property@);
        }
        let added = builder.add_prop(property.key, property.flags.bits());
        let done = serialize_value(builder, &property.value);
        match done {
            Ok(()) => {
                proof {
                    let written = spec_encode_properties(order, before);
                    lemma_raw_raw(start, written, key);
                    lemma_raw_raw(start, written + key, view.value.spec_encode(order));
                    assert(written + key + view.value.spec_encode(order) =~= written + (key
                        + view.value.spec_encode(order)));
                }
            },
            Err(e) => {
                proof {
                    assert(view.value.spec_check(order) == Some(e));
                    assert(spec_check_properties(order, views.take(i + 1)) == Some(e));
                    lemma_check_properties_prefix(order, views, i + 1);
                }
                return Err(e);
            },
        }
        i += 1;
    }
    proof {
        assert(views.take(properties@.len() as int) =~= views);
    }
    Ok(())
}

/// Writes the pod of a value. Nothing but the pod is written: the builder
/// ends where a single write of the pod would have left it.
///
/// The builder is in the mode for whole pods, at a multiple of 8.
pub fn serialize_value(builder: &mut Builder, value: &Value) -> (r: Result<(), SerializeError>)
    requires
        old(builder).inv(),
        old(builder)@.mode == Mode::Pods,
        old(builder)@.offset % 8 == 0,
    ensures
        final(builder).inv(),
        r == spec_outcome(value@.spec_check(old(builder)@.order)),
        r is Ok ==> final(builder)@ == old(builder)@.raw(value@.spec_encode(old(builder)@.order)),
    decreases value, 0nat,
{
    let order = builder.order();
    let ghost start = builder@;
    match value {
        Value::Null => {
            serialize_fixed(builder, &());
            Ok(())
        },
        Value::Bool(inner) => {
            serialize_fixed(builder, inner);
            Ok(())
        },
        Value::Id(inner) => {
            serialize_fixed(builder, inner);
            Ok(())
        },
        Value::Int(inner) => {
            serialize_fixed(builder, inner);
            Ok(())
        },
        Value::Long(inner) => {
            serialize_fixed(builder, inner);
            Ok(())
        },
        Value::Float(inner) => {
            serialize_fixed(builder, inner);
            Ok(())
        },
        Value::Double(inner) => {
            serialize_fixed(builder, inner);
            Ok(())
        },
        Value::Rectangle(inner) => {
            serialize_fixed(builder, inner);
            Ok(())
        },
        Value::Fraction(inner) => {
            serialize_fixed(builder, inner);
            Ok(())
        },
        Value::Fd(inner) => {
            serialize_fixed(builder, inner);
            Ok(())
        },
        Value::String(text) => serialize_string(builder, text),
        Value::Bytes(bytes) => serialize_bytes(builder, bytes),
        Value::ValueArray(array) => match array {
            ValueArray::Null(elements) => serialize_array(builder, elements),
            ValueArray::Bool(elements) => serialize_array(builder, elements),
            ValueArray::Id(elements) => serialize_array(builder, elements),
            ValueArray::Int(elements) => serialize_array(builder, elements),
            ValueArray::Long(elements) => serialize_array(builder, elements),
            ValueArray::Float(elements) => serialize_array(builder, elements),
            ValueArray::Double(elements) => serialize_array(builder, elements),
            ValueArray::Rectangle(elements) => serialize_array(builder, elements),
            ValueArray::Fraction(elements) => serialize_array(builder, elements),
            ValueArray::Fd(elements) => serialize_array(builder, elements),
        },
        Value::Struct(fields) => serialize_struct(builder, fields),
        Value::Object(object) => serialize_object(builder, object),
        Value::Choice(choice) => match choice {
            ChoiceValue::Bool(inner) => serialize_choice(builder, inner),
            ChoiceValue::Int(inner) => serialize_choice(builder, inner),
            ChoiceValue::Long(inner) => serialize_choice(builder, inner),
            ChoiceValue::Float(inner) => serialize_choice(builder, inner),
            ChoiceValue::Double(inner) => serialize_choice(builder, inner),
            ChoiceValue::Id(inner) => serialize_choice(builder, inner),
            ChoiceValue::Rectangle(inner) => serialize_choice(builder, inner),
            ChoiceValue::Fraction(inner) => serialize_choice(builder, inner),
            ChoiceValue::Fd(inner) => serialize_choice(builder, inner),
        },
        Value::Pointer(type_, address) => {
            serialize_pointer(builder, *type_, *address);
            Ok(())
        },
    }
}

/// What adding a string leaves is what a single write of its pod would
/// have left.
proof fn lemma_string_is_raw(start: super::builder::BuilderView, body: Seq<u8>)
    requires
        start.inv(),
        start.offset % 8 == 0,
    ensures
        ({
            let written = start.raw(
                spec_header(start.order, body.len() as u32, super::model::SPA_TYPE_STRING) + body,
            );
            written.pad(written.offset)
        }) == start.raw(spec_pod(start.order, super::model::SPA_TYPE_STRING, body)),
{
    lemma_header_len(start.order, body.len() as u32, super::model::SPA_TYPE_STRING);
    lemma_padded_is_raw(
        start,
        super::model::SPA_TYPE_STRING,
        body,
        start.offset + 8 + body.len(),
    );
}

/// Writes a string pod, unless the string holds a zero byte or is too long.
pub fn serialize_string(builder: &mut Builder, text: &String) -> (r: Result<(), SerializeError>)
    requires
        old(builder).inv(),
        old(builder)@.offset % 8 == 0,
    ensures
        final(builder).inv(),
        r == spec_outcome(ValueView::String(text@).spec_check(old(builder)@.order)),
        r is Ok ==> final(builder)@ == old(builder)@.raw(
            ValueView::String(text@).spec_encode(old(builder)@.order),
        ),
{
    let ghost start = builder@;
    let ghost order = start.order;
    let ghost view = ValueView::String(text@);
    let ghost encoded = encode_utf8(text@);
    let bytes = text.as_str().as_bytes();
    assert(bytes@ == encoded);
    assert(view.spec_check(order) == if spec_has_zero(encoded) {
        Some(SerializeError::InteriorNul)
    } else if encoded.len() + 1 > u32::MAX {
        Some(SerializeError::TooLarge)
    } else {
        None
    });
    assert(view.spec_encode(order) == spec_pod(
        order,
        super::model::SPA_TYPE_STRING,
        encoded.push(0u8),
    ));
    if has_zero(bytes) {
        return Err(SerializeError::InteriorNul);
    }
    if bytes.len() >= u32::MAX as usize {
        return Err(SerializeError::TooLarge);
    }
    assert(forall|i: int| 0 <= i < encoded.len() ==> #[trigger] encoded[i] != 0);
    let added = builder.add_string(text.as_str());
    proof {
        lemma_string_is_raw(start, encoded.push(0u8));
    }
    Ok(())
}

/// Writes a bytes pod, unless there are too many bytes.
pub fn serialize_bytes(builder: &mut Builder, bytes: &Vec<u8>) -> (r: Result<(), SerializeError>)
    requires
        old(builder).inv(),
    ensures
        final(builder).inv(),
        r == spec_outcome(ValueView::Bytes(bytes@).spec_check(old(builder)@.order)),
        r is Ok ==> final(builder)@ == old(builder)@.raw(
            ValueView::Bytes(bytes@).spec_encode(old(builder)@.order),
        ),
{
    let ghost start = builder@;
    let ghost order = start.order;
    let ghost view = ValueView::Bytes(bytes@);
    if bytes.len() > u32::MAX as usize {
        return Err(SerializeError::TooLarge);
    }
    let added = builder.add_bytes(bytes.as_slice());
    proof {
        lemma_padded_is_raw(start, super::model::SPA_TYPE_BYTES, bytes@, bytes@.len() as int);
        assert(view.spec_encode(order) == spec_pod(order, view.spec_type(), view.spec_body(order)));
    }
    Ok(())
}

/// Writes a pointer pod.
pub fn serialize_pointer(builder: &mut Builder, type_: u32, address: u64)
    requires
        old(builder).inv(),
        old(builder)@.mode == Mode::Pods,
    ensures
        final(builder).inv(),
        final(builder)@ == old(builder)@.raw(
            ValueView::Pointer(type_, address).spec_encode(old(builder)@.order),
        ),
{
    let ghost start = builder@;
    let ghost order = start.order;
    let ghost view = ValueView::Pointer(type_, address);
    let added = builder.add_pointer(Id(type_), address);
    proof {
        lemma_primitive_is_raw(start, super::model::SPA_TYPE_POINTER, view.spec_body(order));
        assert(view.spec_encode(order) == spec_pod(order, view.spec_type(), view.spec_body(order)));
    }
}

/// Writes a struct: a container that holds the pods of the fields.
pub fn serialize_struct(builder: &mut Builder, fields: &Vec<Value>) -> (r: Result<
    (),
    SerializeError,
>)
    requires
        old(builder).inv(),
        old(builder)@.mode == Mode::Pods,
        old(builder)@.offset % 8 == 0,
    ensures
        final(builder).inv(),
        r == spec_outcome(
            ValueView::Struct(spec_views(fields@)).spec_check(old(builder)@.order),
        ),
        r is Ok ==> final(builder)@ == old(builder)@.raw(
            ValueView::Struct(spec_views(fields@)).spec_encode(old(builder)@.order),
        ),
    decreases fields, 1nat,
{
    let ghost start = builder@;
    let ghost order = start.order;
    let ghost view = ValueView::Struct(spec_views(fields@));
    let ghost content = spec_encode_all(order, spec_views(fields@));
    let ghost head = spec_header(order, 0, SPA_TYPE_STRUCT);
    proof {
        lemma_header_len(order, 0, SPA_TYPE_STRUCT);
        assert(view.spec_body(order) == content);
        assert(view.spec_encode(order) == spec_pod(order, view.spec_type(), view.spec_body(order)));
        assert(view.spec_check(order) == match spec_check_all(order, spec_views(fields@)) {
            Some(e) => Some(e),
            None => if content.len() > u32::MAX {
                Some(SerializeError::TooLarge)
            } else {
                None
            },
        });
    }
    let frame = builder.push_struct().unwrap();
    let done = serialize_fields(builder, fields);
    if let Err(e) = done {
        return Err(e);
    }
    proof {
        lemma_raw_raw(start, head, content);
        assert(head + Seq::<u8>::empty() + content =~= head + content);
        assert(Seq::<u8>::empty() + content =~= content);
        if content.len() <= u32::MAX {
            lemma_pop_is_raw(start, builder@, SPA_TYPE_STRUCT, 0, Seq::empty(), content);
        }
    }
    match builder.checked_pop(&frame) {
        Ok(()) => Ok(()),
        Err(_) => Err(SerializeError::TooLarge),
    }
}

/// Writes an object: a container with the type and the id of the object,
/// which holds its properties.
pub fn serialize_object(builder: &mut Builder, object: &Object) -> (r: Result<
    (),
    SerializeError,
>)
    requires
        old(builder).inv(),
        old(builder)@.mode == Mode::Pods,
        old(builder)@.offset % 8 == 0,
    ensures
        final(builder).inv(),
        r == spec_outcome(
            ValueView::Object(
                object.type_,
                object.id,
                spec_property_views(object.properties@),
            ).spec_check(old(builder)@.order),
        ),
        r is Ok ==> final(builder)@ == old(builder)@.raw(
            ValueView::Object(
                object.type_,
                object.id,
                spec_property_views(object.properties@),
            ).spec_encode(old(builder)@.order),
        ),
    decreases object, 1nat,
{
    let ghost start = builder@;
    let ghost order = start.order;
    let ghost views = spec_property_views(object.properties@);
    let ghost view = ValueView::Object(object.type_, object.id, views);
    let ghost content = spec_encode_properties(order, views);
    let ghost head = spec_header(order, 8, SPA_TYPE_OBJECT);
    let ghost sub = spec_u32_bytes(order, object.type_) + spec_u32_bytes(order, object.id);
    let ghost pushed = head + spec_u32_bytes(order, object.type_) + spec_u32_bytes(
        order,
        object.id,
    );
    proof {
        lemma_header_len(order, 8, SPA_TYPE_OBJECT);
        lemma_u32_bytes(order, object.type_);
        lemma_u32_bytes(order, object.id);
        assert(pushed =~= head + sub);
        assert(view.spec_body(order) =~= sub + content);
        assert(view.spec_encode(order) == spec_pod(order, view.spec_type(), view.spec_body(order)));
        assert(view.spec_check(order) == match spec_check_properties(order, views) {
            Some(e) => Some(e),
            None => if 8 + content.len() > u32::MAX {
                Some(SerializeError::TooLarge)
            } else {
                None
            },
        });
    }
    let frame = builder.push_object(object.type_, object.id).unwrap();
    let done = serialize_properties(builder, &object.properties);
    if let Err(e) = done {
        return Err(e);
    }
    proof {
        lemma_raw_raw(start, pushed, content);
        if sub.len() + content.len() <= u32::MAX {
            lemma_pop_is_raw(start, builder@, SPA_TYPE_OBJECT, 8, sub, content);
        }
    }
    match builder.checked_pop(&frame) {
        Ok(()) => Ok(()),
        Err(_) => Err(SerializeError::TooLarge),
    }
}

/// Implementors of this trait can be written as a pod.
///
/// It is implemented for [`Value`] and for every type that is a
/// [`FixedSizedPod`]. A type of one's own that is to be written as a
/// struct, an object or another container implements it by calls of the
/// builder.
pub trait PodSerialize {
    /// Whether writing `self` takes the builder from `before` to `after`
    /// with the result `r`. An implementor that does not say is taken to
    /// write anything.
    open spec fn spec_serialized(
        &self,
        before: super::builder::BuilderView,
        after: super::builder::BuilderView,
        r: Result<(), SerializeError>,
    ) -> bool {
        true
    }

    /// Writes `self` as a pod. The builder is in the mode for whole pods,
    /// at a multiple of 8.
    fn serialize(&self, builder: &mut Builder) -> (r: Result<(), SerializeError>)
        requires
            old(builder).inv(),
            old(builder)@.mode == Mode::Pods,
            old(builder)@.offset % 8 == 0,
        ensures
            final(builder).inv(),
            self.spec_serialized(old(builder)@, final(builder)@, r),
    ;
}

impl PodSerialize for Value {
    /// The pod of the value is written, unless something stands in the way
    /// of encoding it.
    open spec fn spec_serialized(
        &self,
        before: super::builder::BuilderView,
        after: super::builder::BuilderView,
        r: Result<(), SerializeError>,
    ) -> bool {
        &&& r == spec_outcome(self@.spec_check(before.order))
        &&& r is Ok ==> after == before.raw(self@.spec_encode(before.order))
    }

    fn serialize(&self, builder: &mut Builder) -> (r: Result<(), SerializeError>) {
        serialize_value(builder, self)
    }
}

impl<T: FixedSizedPod> PodSerialize for T {
    /// The pod of what `self` converts to is written.
    open spec fn spec_serialized(
        &self,
        before: super::builder::BuilderView,
        after: super::builder::BuilderView,
        r: Result<(), SerializeError>,
    ) -> bool {
        &&& r is Ok
        &&& exists|canonical: T::CanonicalType|
            self.spec_converts(canonical) && after == #[trigger] before.raw(
                ValueView::Fixed(canonical.spec_fixed()).spec_encode(before.order),
            )
    }

    fn serialize(&self, builder: &mut Builder) -> (r: Result<(), SerializeError>) {
        serialize_fixed_sized_pod(builder, self);
        Ok(())
    }
}

/// What serializing a value over a buffer gives: the buffer with the pod
/// written over its beginning and the size of the pod, or what stands in the
/// way of encoding the value.
pub open spec fn spec_serialize(order: ByteOrder, out: Seq<u8>, pod: ValueView) -> Result<
    (Seq<u8>, int),
    SerializeError,
> {
    match pod.spec_check(order) {
        Some(e) => Err(e),
        None => Ok(
            (
                super::builder::spec_overwrite(out, 0, pod.spec_encode(order)),
                pod.spec_encode(order).len() as int,
            ),
        ),
    }
}

/// Whether `r` is what comes of writing `pod` over `out` with a builder
/// that ends in the state `after`, where writing returned `done`.
pub open spec fn spec_written_as<P: PodSerialize>(
    pod: &P,
    order: ByteOrder,
    out: Seq<u8>,
    after: super::builder::BuilderView,
    done: Result<(), SerializeError>,
    r: Result<(Vec<u8>, u64), SerializeError>,
) -> bool {
    &&& pod.spec_serialized(
        super::builder::BuilderView {
            order,
            data: out,
            offset: 0,
            mode: Mode::Pods,
            frames: Seq::empty(),
        },
        after,
        done,
    )
    &&& match done {
        Ok(_) => r is Ok && r->Ok_0.0@ == after.data && r->Ok_0.1 == after.offset,
        Err(e) => r == Err::<(Vec<u8>, u64), SerializeError>(e),
    }
}

/// The result of serializing, with the buffer as a sequence.
pub open spec fn spec_written(r: Result<(Vec<u8>, u64), SerializeError>) -> Result<
    (Seq<u8>, int),
    SerializeError,
> {
    match r {
        Ok((bytes, count)) => Ok((bytes@, count as int)),
        Err(e) => Err(e),
    }
}

/// Serializes values into pods.
pub struct PodSerializer;

impl PodSerializer {
    /// Writes the pod of `pod` over `out`, in the given byte order. Returns
    /// the buffer and the number of bytes that were written, or what stands
    /// in the way of encoding the value.
    pub fn serialize_with_order(order: ByteOrder, out: Vec<u8>, pod: &Value) -> (r: Result<
        (Vec<u8>, u64),
        SerializeError,
    >)
        ensures
            spec_written(r) == spec_serialize(order, out@, pod@),
    {
        let mut builder = Builder::over(out, order);
        match serialize_value(&mut builder, pod) {
            Ok(()) => {
                let written = builder.offset() as u64;
                Ok((builder.into_data(), written))
            },
            Err(e) => Err(e),
        }
    }

    /// Writes `pod` over `out` as its implementation of [`PodSerialize`]
    /// says, in the given byte order. Returns the buffer and the number of
    /// bytes that were written, or the error of writing.
    pub fn serialize_as<P: PodSerialize>(order: ByteOrder, out: Vec<u8>, pod: &P) -> (r: Result<
        (Vec<u8>, u64),
        SerializeError,
    >)
        ensures
            exists|after: super::builder::BuilderView, done: Result<(), SerializeError>|
                spec_written_as(pod, order, out@, after, done, r),
    {
        let mut builder = Builder::over(out, order);
        let done = pod.serialize(&mut builder);
        let ghost after = builder@;
        let r = match done {
            Ok(_) => {
                let written = builder.offset() as u64;
                Ok((builder.into_data(), written))
            },
            Err(e) => Err(e),
        };
        assert(spec_written_as(pod, order, out@, after, done, r));
        r
    }

    /// Writes the pod of `pod` over `out`, in the byte order of this
    /// machine. Returns the buffer and the number of bytes that were
    /// written, or what stands in the way of encoding the value.
    pub fn serialize(out: Vec<u8>, pod: &Value) -> (r: Result<(Vec<u8>, u64), SerializeError>)
        ensures
            spec_written(r) == spec_serialize(ByteOrder::Little, out@, pod@) || spec_written(r)
                == spec_serialize(ByteOrder::Big, out@, pod@),
    {
        Self::serialize_with_order(ByteOrder::native(), out, pod)
    }
}

} // verus!
