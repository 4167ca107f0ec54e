//! The content of padding does not matter: bytes that differ only where
//! padding stands are read as the same value.

use vstd::prelude::*;

use super::laws::lemma_header_len;
use super::model::{
    spec_bounds, spec_parse, spec_parse_all, spec_parse_body, spec_parse_properties,
    DeserializeError, ValueView, SPA_TYPE_OBJECT, SPA_TYPE_STRUCT,
};
use super::roundtrip::{lemma_roundtrip, lemma_u32_front};
use super::wire::{
    lemma_u32_same, spec_header, spec_padding, spec_u32_bytes, spec_zeros, ByteOrder,
};

verus! {

/// Whether `a` and `b` are the body of a pod of the given type with at most
/// the padding inside it changed. Only the fields of a struct and the
/// values of the properties of an object have padding.
pub open spec fn spec_same_body(order: ByteOrder, type_: u32, a: Seq<u8>, b: Seq<u8>) -> bool
    decreases a.len(), 1nat,
{
    if type_ == SPA_TYPE_STRUCT {
        spec_same_all(order, a, b)
    } else if type_ == SPA_TYPE_OBJECT && a.len() >= 8 {
        &&& a.len() == b.len()
        &&& a.take(8) == b.take(8)
        &&& spec_same_properties(order, a.skip(8), b.skip(8))
    } else {
        a == b
    }
}

/// Whether `a` and `b` are the same pods, one after the other, with at most
/// their padding changed: each pod has the same header in both and the same
/// body but for padding, and what follows the body up to the next pod is
/// free.
pub open spec fn spec_same_all(order: ByteOrder, a: Seq<u8>, b: Seq<u8>) -> bool
    decreases a.len(), 0nat,
{
    &&& a.len() == b.len()
    &&& match spec_bounds(order, a) {
        Err(_) => a == b,
        Ok(bounds) => {
            &&& a.take(8) == b.take(8)
            &&& spec_same_body(
                order,
                bounds.type_,
                a.subrange(8, 8 + bounds.size),
                b.subrange(8, 8 + bounds.size),
            )
            &&& spec_same_all(order, a.skip(bounds.total), b.skip(bounds.total))
        },
    }
}

/// Whether `a` and `b` are the same properties, one after the other, with
/// at most the padding of their values changed.
pub open spec fn spec_same_properties(order: ByteOrder, a: Seq<u8>, b: Seq<u8>) -> bool
    decreases a.len(), 0nat,
{
    &&& a.len() == b.len()
    &&& if a.len() < 8 {
        a == b
    } else {
        match spec_bounds(order, a.skip(8)) {
            Err(_) => a == b,
            Ok(bounds) => {
                &&& a.take(16) == b.take(16)
                &&& spec_same_body(
                    order,
                    bounds.type_,
                    a.subrange(16, 16 + bounds.size),
                    b.subrange(16, 16 + bounds.size),
                )
                &&& spec_same_properties(
                    order,
                    a.skip(8 + bounds.total),
                    b.skip(8 + bounds.total),
                )
            },
        }
    }
}

/// Whether `a` and `b` begin with the same pod, with at most its padding
/// and the padding inside it changed. What follows the pod is free.
pub open spec fn spec_same_pod(order: ByteOrder, a: Seq<u8>, b: Seq<u8>) -> bool {
    &&& a.len() == b.len()
    &&& match spec_bounds(order, a) {
        Err(_) => a == b,
        Ok(bounds) => {
            &&& a.take(8) == b.take(8)
            &&& spec_same_body(
                order,
                bounds.type_,
                a.subrange(8, 8 + bounds.size),
                b.subrange(8, 8 + bounds.size),
            )
        },
    }
}

/// Bytes of the same length that begin with the same `count` bytes, and
/// hold a header behind the first `at` of them, have the same bounds there.
proof fn lemma_same_bounds(order: ByteOrder, a: Seq<u8>, b: Seq<u8>, at: int)
    requires
        a.len() == b.len(),
        0 <= at,
        at + 8 <= a.len(),
        a.take(at + 8) == b.take(at + 8),
    ensures
        spec_bounds(order, a.skip(at)) == spec_bounds(order, b.skip(at)),
        forall|i: int| 0 <= i < at + 8 ==> a[i] == b[i],
{
    assert forall|i: int| 0 <= i < at + 8 implies a[i] == b[i] by {
        assert(a[i] == a.take(at + 8)[i]);
        assert(b[i] == b.take(at + 8)[i]);
    }
    lemma_u32_same(order, a.skip(at), b.skip(at));
    lemma_u32_same(order, a.skip(at).skip(4), b.skip(at).skip(4));
}

/// Bodies that differ only in padding hold the same value.
pub proof fn lemma_same_body(order: ByteOrder, type_: u32, a: Seq<u8>, b: Seq<u8>)
    requires
        spec_same_body(order, type_, a, b),
    ensures
        spec_parse_body(order, type_, a) == spec_parse_body(order, type_, b),
    decreases a.len(), 1nat,
{
    if type_ == SPA_TYPE_STRUCT {
        lemma_same_all(order, a, b);
    } else if type_ == SPA_TYPE_OBJECT && a.len() >= 8 {
        lemma_same_properties(order, a.skip(8), b.skip(8));
        assert forall|i: int| 0 <= i < 8 implies a[i] == b[i] by {
            assert(a[i] == a.take(8)[i]);
            assert(b[i] == b.take(8)[i]);
        }
        lemma_u32_same(order, a, b);
        lemma_u32_same(order, a.skip(4), b.skip(4));
    }
}

/// Pods that stand one after the other and differ only in padding hold the
/// same values.
pub proof fn lemma_same_all(order: ByteOrder, a: Seq<u8>, b: Seq<u8>)
    requires
        spec_same_all(order, a, b),
    ensures
        spec_parse_all(order, a) == spec_parse_all(order, b),
    decreases a.len(), 0nat,
{
    if a.len() > 0 {
        match spec_bounds(order, a) {
            Err(_) => {},
            Ok(bounds) => {
                assert(a.skip(0) =~= a);
                assert(b.skip(0) =~= b);
                lemma_same_bounds(order, a, b, 0);
                lemma_same_body(
                    order,
                    bounds.type_,
                    a.subrange(8, 8 + bounds.size),
                    b.subrange(8, 8 + bounds.size),
                );
                lemma_same_all(order, a.skip(bounds.total), b.skip(bounds.total));
            },
        }
    }
}

/// Properties that stand one after the other and differ only in the
/// padding of their values are the same properties.
pub proof fn lemma_same_properties(order: ByteOrder, a: Seq<u8>, b: Seq<u8>)
    requires
        spec_same_properties(order, a, b),
    ensures
        spec_parse_properties(order, a) == spec_parse_properties(order, b),
    decreases a.len(), 0nat,
{
    if a.len() >= 8 {
        match spec_bounds(order, a.skip(8)) {
            Err(_) => {},
            Ok(bounds) => {
                lemma_same_bounds(order, a, b, 8);
                lemma_same_body(
                    order,
                    bounds.type_,
                    a.subrange(16, 16 + bounds.size),
                    b.subrange(16, 16 + bounds.size),
                );
                lemma_same_properties(
                    order,
                    a.skip(8 + bounds.total),
                    b.skip(8 + bounds.total),
                );
                lemma_u32_same(order, a, b);
                lemma_u32_same(order, a.skip(4), b.skip(4));
            },
        }
    }
}

/// The content of padding never changes what is read, and never turns
/// success into failure: bytes that begin with the same pod but for padding
/// are read as the same value, or fail in the same way.
pub proof fn lemma_padding_ignored(order: ByteOrder, a: Seq<u8>, b: Seq<u8>)
    requires
        spec_same_pod(order, a, b),
    ensures
        spec_parse(order, a) == spec_parse(order, b),
{
    match spec_bounds(order, a) {
        Err(_) => {},
        Ok(bounds) => {
            assert(a.skip(0) =~= a);
            assert(b.skip(0) =~= b);
            lemma_same_bounds(order, a, b, 0);
            lemma_same_body(
                order,
                bounds.type_,
                a.subrange(8, 8 + bounds.size),
                b.subrange(8, 8 + bounds.size),
            );
        },
    }
}

/// What is written over the padding that follows the body of a pod does
/// not change what the pod is read as.
pub proof fn lemma_last_padding_ignored(
    order: ByteOrder,
    type_: u32,
    body: Seq<u8>,
    fill: Seq<u8>,
)
    requires
        fill.len() == spec_padding(body.len()),
    ensures
        spec_parse(order, spec_header(order, body.len() as u32, type_) + body + fill)
            == spec_parse(
            order,
            spec_header(order, body.len() as u32, type_) + body + spec_zeros(
                spec_padding(body.len()),
            ),
        ),
{
    let head = spec_header(order, body.len() as u32, type_);
    let a = head + body + spec_zeros(spec_padding(body.len()));
    let b = head + body + fill;
    let size = body.len() as u32;
    lemma_header_len(order, size, type_);
    assert(a.take(8) =~= b.take(8));
    assert(a.skip(0) =~= a);
    assert(b.skip(0) =~= b);
    lemma_same_bounds(order, a, b, 0);
    let behind = spec_u32_bytes(order, type_) + body + spec_zeros(spec_padding(body.len()));
    assert(a =~= spec_u32_bytes(order, size) + behind);
    lemma_u32_front(order, size, behind);
    match spec_bounds(order, a) {
        Err(_) => {},
        Ok(bounds) => {
            assert(bounds.size == size);
            assert(a.subrange(8, 8 + bounds.size) =~= b.subrange(8, 8 + bounds.size));
        },
    }
}

/// Round-trip whatever the padding holds: bytes that are the pod of a value
/// but for the content of padding are read as that value.
pub proof fn lemma_roundtrip_any_padding(order: ByteOrder, value: ValueView, bytes: Seq<u8>)
    requires
        value.spec_encodable(order),
        spec_same_pod(order, value.spec_encode(order), bytes),
    ensures
        spec_parse(order, bytes) == Ok::<(ValueView, int), DeserializeError>(
            (value, value.spec_encode(order).len() as int),
        ),
{
    lemma_roundtrip(order, value);
    lemma_padding_ignored(order, value.spec_encode(order), bytes);
}

} // verus!
