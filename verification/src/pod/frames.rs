//! What holds of the containers that a builder or a parser has open: which
//! of them may be closed, and what closing the outermost one leaves in a
//! buffer that was empty when the builder began.

use vstd::prelude::*;

use super::builder::{Builder, BuilderView, Frame, Mode};
use super::laws::lemma_header_len;
use super::model::SPA_TYPE_NONE;
use super::parser::Parser;
use super::wire::{
    lemma_u32_bytes, lemma_u32_same, spec_header, spec_padding, spec_u32_bytes,
    spec_u32_from_bytes, spec_zeros,
};

verus! {

/// Only the innermost open container of a builder is on top: a frame that
/// was on top is not while more containers are open than were then. Closing
/// it is refused until those inside it are closed.
pub proof fn lemma_builder_outer_not_top(before: Builder, now: Builder, outer: Frame)
    requires
        before.is_top(outer),
        now@.frames.len() > before@.frames.len(),
    ensures
        !now.is_top(outer),
{
}

/// Only the innermost container that a parser has stepped into is on top: a
/// frame that was on top is not while the parser is in more containers than
/// it was then. Leaving it is refused until those inside it are left.
pub proof fn lemma_parser_outer_not_top(before: Parser, now: Parser, outer: Frame)
    requires
        before.is_top(outer),
        now@.frames.len() > before@.frames.len(),
    ensures
        !now.is_top(outer),
{
}

/// A builder that stands at the end of its buffer stands there again after
/// it has written bytes, which are then the end of the buffer.
pub proof fn lemma_at_end_raw(b: BuilderView, bytes: Seq<u8>)
    requires
        b.inv(),
        b.at_end(),
    ensures
        b.raw(bytes).inv(),
        b.raw(bytes).at_end(),
        b.raw(bytes).data == b.data + bytes,
{
    assert(b.raw(bytes).data =~= b.data + bytes);
}

/// A builder that stands at the end of its buffer stands there again after
/// it has added a pod.
pub proof fn lemma_at_end_primitive(b: BuilderView, type_: u32, body: Seq<u8>)
    requires
        b.inv(),
        b.at_end(),
    ensures
        b.primitive(type_, body).inv(),
        b.primitive(type_, body).at_end(),
{
    let head = spec_header(b.order, body.len() as u32, type_);
    lemma_at_end_raw(b, head + body);
    lemma_at_end_raw(b, body);
    lemma_at_end_raw(b.raw(head + body), spec_zeros(spec_padding(body.len())));
}

/// A builder that stands at the end of its buffer stands there again after
/// it has opened a container.
pub proof fn lemma_at_end_push(b: BuilderView, type_: u32, head: Seq<u8>)
    requires
        b.inv(),
        b.at_end(),
        head.len() >= 8,
    ensures
        b.push(type_, head).inv(),
        b.push(type_, head).at_end(),
{
    lemma_at_end_raw(b, head);
    let after = b.push(type_, head);
    assert forall|i: int| 0 <= i < after.frames.len() implies 0 <= (
    #[trigger] after.frames[i]).offset && after.frames[i].offset + 8 <= after.offset by {
        if i < b.frames.len() {
            assert(after.frames[i] == b.frames[i]);
        }
    }
    assert forall|i: int, j: int| 0 <= i < j < after.frames.len() implies (
    #[trigger] after.frames[i]).offset + 8 <= (#[trigger] after.frames[j]).offset by {
        assert(after.frames[i] == b.frames[i]);
        if j < b.frames.len() {
            assert(after.frames[j] == b.frames[j]);
        }
    }
}

/// A builder that stands at the end of its buffer stands there again after
/// it has closed a container, and the buffer then ends at a multiple of 8.
pub proof fn lemma_at_end_pop(b: BuilderView)
    requires
        b.inv(),
        b.at_end(),
        b.frames.len() > 0,
    ensures
        b.pop().inv(),
        b.pop().at_end(),
        b.pop().data.len() % 8 == 0,
{
    let frame = b.frames.last();
    let head = spec_header(b.order, b.top_size() as u32, frame.type_);
    lemma_header_len(b.order, b.top_size() as u32, frame.type_);
    lemma_header_len(b.order, 0, SPA_TYPE_NONE);
    let filled = if b.mode == Mode::FirstElement {
        b.raw(spec_header(b.order, 0, SPA_TYPE_NONE))
    } else {
        b
    };
    lemma_at_end_raw(b, spec_header(b.order, 0, SPA_TYPE_NONE));
    let patched = BuilderView {
        data: super::builder::spec_overwrite(filled.data, frame.offset, head),
        frames: b.frames.drop_last(),
        mode: frame.mode,
        ..filled
    };
    assert(patched.data.len() == filled.data.len());
    assert forall|i: int| 0 <= i < patched.frames.len() implies 0 <= (
    #[trigger] patched.frames[i]).offset && patched.frames[i].offset + 8 <= patched.offset by {
        assert(patched.frames[i] == b.frames[i]);
    }
    assert forall|i: int, j: int| 0 <= i < j < patched.frames.len() implies (
    #[trigger] patched.frames[i]).offset + 8 <= (#[trigger] patched.frames[j]).offset by {
        assert(patched.frames[i] == b.frames[i]);
        assert(patched.frames[j] == b.frames[j]);
    }
    lemma_at_end_raw(patched, spec_zeros(spec_padding(patched.offset as nat)));
}

/// Closing the outermost container of a builder that began with an empty
/// buffer leaves one whole pod in the buffer: its header states the size of
/// its body, and behind the body stand only the zero bytes that bring the
/// length to a multiple of 8.
pub proof fn lemma_outermost_pop(b: BuilderView)
    requires
        b.inv(),
        b.at_end(),
        b.frames.len() == 1,
        b.frames[0].offset == 0,
        b.top_size() <= u32::MAX,
    ensures
        ({
            let data = b.pop().data;
            let size = spec_u32_from_bytes(b.order, data) as int;
            &&& size == b.top_size()
            &&& data.len() == 8 + size + spec_padding(size as nat)
            &&& data.len() % 8 == 0
            &&& data.skip(8 + size) == spec_zeros(spec_padding(size as nat))
            &&& spec_u32_from_bytes(b.order, data.skip(4)) == b.frames[0].type_
        }),
{
    let frame = b.frames.last();
    let size = b.top_size();
    let head = spec_header(b.order, size as u32, frame.type_);
    lemma_header_len(b.order, size as u32, frame.type_);
    lemma_header_len(b.order, 0, SPA_TYPE_NONE);
    lemma_u32_bytes(b.order, size as u32);
    lemma_u32_bytes(b.order, frame.type_);
    lemma_at_end_pop(b);
    let filled = if b.mode == Mode::FirstElement {
        b.raw(spec_header(b.order, 0, SPA_TYPE_NONE))
    } else {
        b
    };
    lemma_at_end_raw(b, spec_header(b.order, 0, SPA_TYPE_NONE));
    let patched = BuilderView {
        data: super::builder::spec_overwrite(filled.data, frame.offset, head),
        frames: b.frames.drop_last(),
        mode: frame.mode,
        ..filled
    };
    assert(patched.offset == 8 + size);
    assert(patched.data.len() == 8 + size);
    let fill = spec_zeros(spec_padding(patched.offset as nat));
    assert(spec_padding((8 + size) as nat) == spec_padding(size as nat));
    let data = b.pop().data;
    assert(data =~= patched.data + fill);
    assert(data.skip(8 + size) =~= fill);
    lemma_u32_same(b.order, data, spec_u32_bytes(b.order, size as u32));
    lemma_u32_same(b.order, data.skip(4), spec_u32_bytes(b.order, frame.type_));
}

} // verus!
