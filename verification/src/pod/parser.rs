//! A cursor that reads pods one after the other, and steps into structs and
//! objects.
//!
//! The parser stands at an offset in borrowed bytes. Stepping into a
//! container opens a [`Frame`], which bounds what is read until the frame is
//! closed again. No pod is handed out that does not lie within the bounds,
//! whatever the bytes say.

use vstd::prelude::*;
use vstd::slice::slice_subrange;

use super::builder::{BuilderError, Frame};
use super::canonical::CanonicalFixedSizedPod;
use super::deserialize::pod_bounds;
use super::model::{
    spec_bounds, spec_parse_string, DeserializeError, SPA_TYPE_BYTES, SPA_TYPE_POINTER,
    SPA_TYPE_STRING,
};
use super::reader::{spec_fixed_read, spec_get_fixed, Pod, PodView};
use super::wire::{
    lemma_u32_bytes, lemma_u32_same, padding, read_u32, spec_padding, spec_u32_bytes,
    spec_u32_from_bytes, spec_u64_from_bytes, ByteOrder,
};
use crate::utils::{Double, Fd, Float, Fraction, Id, Rectangle};

verus! {

/// A container that a parser has stepped into.
pub struct ParserFrameView {
    /// Where the header of the container stands.
    pub offset: int,
    /// The size of the header and the body of the container.
    pub size: int,
}

/// The state of a [`Parser`].
pub struct ParserView {
    /// The order in which integers stand in the bytes.
    pub order: ByteOrder,
    /// The bytes that are read.
    pub data: Seq<u8>,
    /// Where the parser stands.
    pub offset: int,
    /// The containers that the parser has stepped into, the innermost last.
    pub frames: Seq<ParserFrameView>,
}

/// The next multiple of 8 from `size` on.
pub open spec fn spec_round_up(size: int) -> int {
    size + spec_padding(size as nat)
}

impl ParserView {
    /// What holds of every parser: it stands inside the bytes or at their
    /// end, and so does every container that it has stepped into, with its
    /// padding.
    pub open spec fn inv(self) -> bool {
        &&& 0 <= self.offset <= self.data.len()
        &&& forall|i: int|
            0 <= i < self.frames.len() ==> 0 <= (#[trigger] self.frames[i]).offset && 8
                <= self.frames[i].size && self.frames[i].offset + spec_round_up(
                self.frames[i].size,
            ) <= self.data.len()
    }

    /// Where what can be read ends: the end of the innermost container, or
    /// of the bytes.
    pub open spec fn limit(self) -> int {
        if self.frames.len() == 0 {
            self.data.len() as int
        } else {
            self.frames.last().offset + self.frames.last().size
        }
    }

    /// The bytes from where the parser stands up to the limit.
    pub open spec fn window(self) -> Seq<u8> {
        self.data.subrange(self.offset, self.limit())
    }

    /// Whether a pod stands where the parser stands: the offset is a
    /// multiple of 8, and the header, the body and the padding of the pod
    /// lie before the limit.
    pub open spec fn has_current(self) -> bool {
        &&& self.offset % 8 == 0
        &&& self.offset <= self.limit()
        &&& spec_bounds(self.order, self.window()) is Ok
    }

    /// The pod that stands where the parser stands.
    pub open spec fn current(self) -> PodView {
        let bounds = spec_bounds(self.order, self.window())->Ok_0;
        PodView {
            order: self.order,
            type_: bounds.type_,
            body: self.window().subrange(8, 8 + bounds.size),
        }
    }

    /// The state after the parser has passed the pod where it stands.
    pub open spec fn advanced(self) -> ParserView {
        ParserView {
            offset: self.offset + spec_bounds(self.order, self.window())->Ok_0.total,
            ..self
        }
    }

    /// The state after the parser has stepped into the container where it
    /// stands, so that it stands at `offset`.
    pub open spec fn pushed(self, offset: int) -> ParserView {
        ParserView {
            offset,
            frames: self.frames.push(
                ParserFrameView {
                    offset: self.offset,
                    size: 8 + spec_bounds(self.order, self.window())->Ok_0.size,
                },
            ),
            ..self
        }
    }

    /// The state after the parser has left the innermost container: it
    /// stands behind the container and its padding.
    pub open spec fn popped(self) -> ParserView {
        ParserView {
            offset: self.frames.last().offset + spec_round_up(self.frames.last().size),
            frames: self.frames.drop_last(),
            ..self
        }
    }
}

/// What the parser keeps of a container that it has stepped into.
struct OpenFrame {
    offset: usize,
    size: usize,
}

/// Reads pods from borrowed bytes, one after the other.
pub struct Parser<'d> {
    order: ByteOrder,
    data: &'d [u8],
    offset: usize,
    frames: Vec<OpenFrame>,
}

impl<'d> View for Parser<'d> {
    type V = ParserView;

    closed spec fn view(&self) -> ParserView {
        ParserView {
            order: self.order,
            data: self.data@,
            offset: self.offset as int,
            frames: Seq::new(
                self.frames@.len(),
                |i: int|
                    ParserFrameView {
                        offset: self.frames@[i].offset as int,
                        size: self.frames@[i].size as int,
                    },
            ),
        }
    }
}

/// What a typed accessor of the parser does: where a pod of the kind
/// stands, it returns the value and passes the pod; where none stands, the
/// bytes are truncated; where another pod stands, it stays.
pub open spec fn spec_parser_get<T: CanonicalFixedSizedPod>(
    before: ParserView,
    after: ParserView,
    r: Result<T, DeserializeError>,
) -> bool {
    if !before.has_current() {
        r == Err::<T, DeserializeError>(DeserializeError::Truncated) && after == before
    } else {
        &&& spec_fixed_read(r) == spec_get_fixed(before.current(), T::spec_kind())
        &&& after == if r is Ok {
            before.advanced()
        } else {
            before
        }
    }
}

impl<'d> Parser<'d> {
    /// What holds of every parser; see [`ParserView::inv`].
    pub open spec fn inv(&self) -> bool {
        self@.inv()
    }

    /// Whether `frame` is the container that was stepped into last and not
    /// left yet.
    pub open spec fn is_top(&self, frame: Frame) -> bool {
        &&& self@.frames.len() == frame.depth() + 1
        &&& self@.frames.last().offset == frame.offset()
    }

    /// A parser at the beginning of `data`, in the byte order of this
    /// machine. `data` must not be longer than a 32-bit size can state.
    pub fn new(data: &'d [u8]) -> (r: Self)
        requires
            data@.len() <= u32::MAX,
        ensures
            r.inv(),
            r@.data == data@,
            r@.offset == 0,
            r@.frames.len() == 0,
    {
        Self::with_order(data, ByteOrder::native())
    }

    /// A parser at the beginning of `data`, in the given byte order. `data`
    /// must not be longer than a 32-bit size can state.
    pub fn with_order(data: &'d [u8], order: ByteOrder) -> (r: Self)
        requires
            data@.len() <= u32::MAX,
        ensures
            r.inv(),
            r@ == (ParserView { order, data: data@, offset: 0, frames: Seq::empty() }),
    {
        Self::over(data, order)
    }

    /// A parser at the beginning of `data`, whatever its length.
    fn over(data: &'d [u8], order: ByteOrder) -> (r: Self)
        ensures
            r.inv(),
            r@ == (ParserView { order, data: data@, offset: 0, frames: Seq::empty() }),
    {
        let r = Parser { order, data, offset: 0, frames: Vec::new() };
        assert(r@.frames =~= Seq::empty());
        r
    }

    /// A parser at the beginning of the header and the body of `pod`. Where
    /// the body needs no padding, the parser stands at the pod itself.
    pub fn from_pod(pod: &Pod<'d>) -> (r: Self)
        ensures
            r.inv(),
            r@ == (ParserView {
                order: pod@.order,
                data: pod.spec_bytes(),
                offset: 0,
                frames: Seq::empty(),
            }),
            pod@.body.len() % 8 == 0 ==> r@.has_current() && r@.current() == pod@,
    {
        let bytes = pod.as_bytes();
        proof {
            let view = pod@;
            let size = view.body.len() as u32;
            let low = spec_u32_bytes(view.order, size);
            let high = spec_u32_bytes(view.order, view.type_);
            lemma_u32_bytes(view.order, size);
            lemma_u32_bytes(view.order, view.type_);
            lemma_u32_same(view.order, bytes@, low);
            lemma_u32_same(view.order, bytes@.skip(4), high);
            assert(bytes@.subrange(0, bytes@.len() as int) =~= bytes@);
            assert(bytes@.subrange(8, 8 + size) =~= view.body);
        }
        Self::over(bytes, pod.order())
    }

    /// Where the parser stands.
    pub fn offset(&self) -> (r: usize)
        ensures
            r == self@.offset,
    {
        self.offset
    }

    /// Where what can be read ends.
    fn limit(&self) -> (r: usize)
        requires
            self.inv(),
        ensures
            r == self@.limit(),
            r <= self@.data.len(),
    {
        let depth = self.frames.len();
        if depth == 0 {
            self.data.len()
        } else {
            let len = self.data.len();
            proof {
                let top = self@.frames[depth - 1];
                assert(top.offset + spec_round_up(top.size) <= self@.data.len());
            }
            self.frames[depth - 1].offset + self.frames[depth - 1].size
        }
    }

    /// The pod that stands where the parser stands, if one does.
    pub fn current(&self) -> (r: Option<Pod<'d>>)
        requires
            self.inv(),
        ensures
            r is Some <==> self@.has_current(),
            r is Some ==> r->0@ == self@.current(),
    {
        let limit = self.limit();
        if self.offset % 8 != 0 || self.offset > limit {
            return None;
        }
        Pod::from_bytes_with_order(self.order, slice_subrange(self.data, self.offset, limit))
    }

    /// Passes the pod that stands where the parser stands.
    pub fn advance(&mut self)
        requires
            old(self).inv(),
            old(self)@.has_current(),
        ensures
            final(self).inv(),
            final(self)@ == old(self)@.advanced(),
    {
        let limit = self.limit();
        match pod_bounds(self.order, self.data, self.offset, limit) {
            Ok((type_, size, total)) => {
                self.offset = self.offset + total;
            },
            Err(_) => {},
        }
        assert(self@.frames =~= old(self)@.frames);
    }

    /// The pod that stands where the parser stands, if one does; the parser
    /// passes it.
    pub fn next(&mut self) -> (r: Option<Pod<'d>>)
        requires
            old(self).inv(),
        ensures
            final(self).inv(),
            r is Some <==> old(self)@.has_current(),
            r is Some ==> r->0@ == old(self)@.current() && final(self)@ == old(self)@.advanced(),
            r is None ==> final(self)@ == old(self)@,
    {
        let pod = self.current();
        if pod.is_some() {
            self.advance();
        }
        pod
    }

    /// The pod that stands where the parser stands; the parser passes it.
    pub fn get_pod(&mut self) -> (r: Result<Pod<'d>, DeserializeError>)
        requires
            old(self).inv(),
        ensures
            final(self).inv(),
            r is Ok <==> old(self)@.has_current(),
            r is Ok ==> r->Ok_0@ == old(self)@.current() && final(self)@ == old(self)@.advanced(),
            r is Err ==> r->Err_0 == DeserializeError::Truncated && final(self)@ == old(self)@,
    {
        match self.next() {
            Some(pod) => Ok(pod),
            None => Err(DeserializeError::Truncated),
        }
    }

    /// The value of a fixed-size kind that stands where the parser stands;
    /// the parser passes it.
    pub fn get_fixed<T: CanonicalFixedSizedPod>(&mut self) -> (r: Result<T, DeserializeError>)
        requires
            old(self).inv(),
        ensures
            final(self).inv(),
            spec_parser_get(old(self)@, final(self)@, r),
    {
        match self.current() {
            None => Err(DeserializeError::Truncated),
            Some(pod) => {
                let value = pod.get_fixed();
                if value.is_ok() {
                    self.advance();
                }
                value
            },
        }
    }

    /// The boolean that stands where the parser stands.
    pub fn get_bool(&mut self) -> (r: Result<bool, DeserializeError>)
        requires
            old(self).inv(),
        ensures
            final(self).inv(),
            spec_parser_get(old(self)@, final(self)@, r),
    {
        self.get_fixed()
    }

    /// The enumerated value that stands where the parser stands.
    pub fn get_id(&mut self) -> (r: Result<Id, DeserializeError>)
        requires
            old(self).inv(),
        ensures
            final(self).inv(),
            spec_parser_get(old(self)@, final(self)@, r),
    {
        self.get_fixed()
    }

    /// The 32 bits integer that stands where the parser stands.
    pub fn get_int(&mut self) -> (r: Result<i32, DeserializeError>)
        requires
            old(self).inv(),
        ensures
            final(self).inv(),
            spec_parser_get(old(self)@, final(self)@, r),
    {
        self.get_fixed()
    }

    /// The 64 bits integer that stands where the parser stands.
    pub fn get_long(&mut self) -> (r: Result<i64, DeserializeError>)
        requires
            old(self).inv(),
        ensures
            final(self).inv(),
            spec_parser_get(old(self)@, final(self)@, r),
    {
        self.get_fixed()
    }

    /// The 32 bits floating point number that stands where the parser stands.
    pub fn get_float(&mut self) -> (r: Result<Float, DeserializeError>)
        requires
            old(self).inv(),
        ensures
            final(self).inv(),
            spec_parser_get(old(self)@, final(self)@, r),
    {
        self.get_fixed()
    }

    /// The 64 bits floating point number that stands where the parser stands.
    pub fn get_double(&mut self) -> (r: Result<Double, DeserializeError>)
        requires
            old(self).inv(),
        ensures
            final(self).inv(),
            spec_parser_get(old(self)@, final(self)@, r),
    {
        self.get_fixed()
    }

    /// The file descriptor that stands where the parser stands.
    pub fn get_fd(&mut self) -> (r: Result<Fd, DeserializeError>)
        requires
            old(self).inv(),
        ensures
            final(self).inv(),
            spec_parser_get(old(self)@, final(self)@, r),
    {
        self.get_fixed()
    }

    /// The rectangle that stands where the parser stands.
    pub fn get_rectangle(&mut self) -> (r: Result<Rectangle, DeserializeError>)
        requires
            old(self).inv(),
        ensures
            final(self).inv(),
            spec_parser_get(old(self)@, final(self)@, r),
    {
        self.get_fixed()
    }

    /// The fraction that stands where the parser stands.
    pub fn get_fraction(&mut self) -> (r: Result<Fraction, DeserializeError>)
        requires
            old(self).inv(),
        ensures
            final(self).inv(),
            spec_parser_get(old(self)@, final(self)@, r),
    {
        self.get_fixed()
    }

    /// The text of the string pod that stands where the parser stands,
    /// borrowed; the parser passes the pod.
    pub fn get_string(&mut self) -> (r: Result<&'d str, DeserializeError>)
        requires
            old(self).inv(),
        ensures
            final(self).inv(),
            final(self)@ == if r is Ok {
                old(self)@.advanced()
            } else {
                old(self)@
            },
            !old(self)@.has_current() ==> r == Err::<&str, DeserializeError>(
                DeserializeError::Truncated,
            ),
            old(self)@.has_current() && old(self)@.current().type_ != SPA_TYPE_STRING ==> r
                == Err::<&str, DeserializeError>(DeserializeError::TypeMismatch),
            old(self)@.has_current() && old(self)@.current().type_ == SPA_TYPE_STRING ==> match r {
                Ok(text) => spec_parse_string(old(self)@.current().body) == Ok::<
                    Seq<char>,
                    DeserializeError,
                >(text@),
                Err(e) => spec_parse_string(old(self)@.current().body) == Err::<
                    Seq<char>,
                    DeserializeError,
                >(e),
            },
    {
        match self.current() {
            None => Err(DeserializeError::Truncated),
            Some(pod) => {
                let text = pod.get_string();
                if text.is_ok() {
                    self.advance();
                }
                text
            },
        }
    }

    /// The bytes of the string pod that stands where the parser stands, up
    /// to their first zero byte, borrowed; the parser passes the pod.
    pub fn get_string_raw(&mut self) -> (r: Result<&'d [u8], DeserializeError>)
        requires
            old(self).inv(),
        ensures
            final(self).inv(),
            final(self)@ == if r is Ok {
                old(self)@.advanced()
            } else {
                old(self)@
            },
            !old(self)@.has_current() ==> r == Err::<&[u8], DeserializeError>(
                DeserializeError::Truncated,
            ),
            old(self)@.has_current() && old(self)@.current().type_ != SPA_TYPE_STRING ==> r
                == Err::<&[u8], DeserializeError>(DeserializeError::TypeMismatch),
            old(self)@.has_current() && old(self)@.current().type_ == SPA_TYPE_STRING ==> match r {
                Ok(bytes) => super::model::spec_parse_cstr(old(self)@.current().body) == Ok::<
                    Seq<u8>,
                    DeserializeError,
                >(bytes@),
                Err(e) => super::model::spec_parse_cstr(old(self)@.current().body) == Err::<
                    Seq<u8>,
                    DeserializeError,
                >(e),
            },
    {
        match self.current() {
            None => Err(DeserializeError::Truncated),
            Some(pod) => {
                let text = pod.get_string_raw();
                if text.is_ok() {
                    self.advance();
                }
                text
            },
        }
    }

    /// The bytes of the bytes pod that stands where the parser stands,
    /// borrowed; the parser passes the pod.
    pub fn get_bytes(&mut self) -> (r: Result<&'d [u8], DeserializeError>)
        requires
            old(self).inv(),
        ensures
            final(self).inv(),
            final(self)@ == if r is Ok {
                old(self)@.advanced()
            } else {
                old(self)@
            },
            !old(self)@.has_current() ==> r == Err::<&[u8], DeserializeError>(
                DeserializeError::Truncated,
            ),
            old(self)@.has_current() && old(self)@.current().type_ != SPA_TYPE_BYTES ==> r
                == Err::<&[u8], DeserializeError>(DeserializeError::TypeMismatch),
            old(self)@.has_current() && old(self)@.current().type_ == SPA_TYPE_BYTES ==> r is Ok
                && r->Ok_0@ == old(self)@.current().body,
    {
        match self.current() {
            None => Err(DeserializeError::Truncated),
            Some(pod) => {
                let bytes = pod.get_bytes();
                if bytes.is_ok() {
                    self.advance();
                }
                bytes
            },
        }
    }

    /// The pointer that stands where the parser stands: its address, and
    /// the type of what it points to. The parser passes the pod.
    pub fn get_pointer(&mut self) -> (r: Result<(u64, Id), DeserializeError>)
        requires
            old(self).inv(),
        ensures
            final(self).inv(),
            final(self)@ == if r is Ok {
                old(self)@.advanced()
            } else {
                old(self)@
            },
            !old(self)@.has_current() ==> r == Err::<(u64, Id), DeserializeError>(
                DeserializeError::Truncated,
            ),
            old(self)@.has_current() ==> ({
                let pod = old(self)@.current();
                &&& pod.type_ != SPA_TYPE_POINTER ==> r == Err::<(u64, Id), DeserializeError>(
                    DeserializeError::TypeMismatch,
                )
                &&& pod.type_ == SPA_TYPE_POINTER && pod.body.len() != 16 ==> r == Err::<
                    (u64, Id),
                    DeserializeError,
                >(DeserializeError::SizeMismatch)
                &&& pod.type_ == SPA_TYPE_POINTER && pod.body.len() == 16 ==> r == Ok::<
                    (u64, Id),
                    DeserializeError,
                >(
                    (
                        spec_u64_from_bytes(pod.order, pod.body.skip(8)),
                        Id(spec_u32_from_bytes(pod.order, pod.body)),
                    ),
                )
            }),
    {
        match self.current() {
            None => Err(DeserializeError::Truncated),
            Some(pod) => {
                let pointer = pod.get_pointer();
                if pointer.is_ok() {
                    self.advance();
                }
                pointer
            },
        }
    }

    /// Steps into the struct that stands where the parser stands: the
    /// parser then stands at its first field, and reads no further than its
    /// last.
    pub fn push_struct(&mut self) -> (r: Result<Frame, DeserializeError>)
        requires
            old(self).inv(),
        ensures
            final(self).inv(),
            !old(self)@.has_current() ==> r == Err::<Frame, DeserializeError>(
                DeserializeError::Truncated,
            ),
            old(self)@.has_current() && old(self)@.current().type_
                != super::model::SPA_TYPE_STRUCT ==> r == Err::<Frame, DeserializeError>(
                DeserializeError::TypeMismatch,
            ),
            old(self)@.has_current() && old(self)@.current().type_
                == super::model::SPA_TYPE_STRUCT ==> r is Ok,
            r is Err ==> final(self)@ == old(self)@,
            r is Ok ==> final(self)@ == old(self)@.pushed(old(self)@.offset + 8) && final(self).is_top(r->Ok_0),
    {
        let limit = self.limit();
        if self.offset % 8 != 0 || self.offset > limit {
            return Err(DeserializeError::Truncated);
        }
        match pod_bounds(self.order, self.data, self.offset, limit) {
            Err(_) => Err(DeserializeError::Truncated),
            Ok((type_, size, total)) => {
                if type_ != super::model::SPA_TYPE_STRUCT {
                    return Err(DeserializeError::TypeMismatch);
                }
                let frame = Frame::at(self.frames.len(), self.offset);
                self.frames.push(OpenFrame { offset: self.offset, size: 8 + size });
                self.offset = self.offset + 8;
                proof {
                    assert(self@.frames =~= old(self)@.pushed(old(self)@.offset + 8).frames);
                }
                Ok(frame)
            },
        }
    }

    /// Steps into the object that stands where the parser stands, if it is
    /// of the given type. Returns the frame and the id of the object. The
    /// parser then stands at the end of the bytes.
    pub fn push_object(&mut self, type_: u32) -> (r: Result<(Frame, Id), DeserializeError>)
        requires
            old(self).inv(),
        ensures
            final(self).inv(),
            !old(self)@.has_current() ==> r == Err::<(Frame, Id), DeserializeError>(
                DeserializeError::Truncated,
            ),
            old(self)@.has_current() ==> ({
                let pod = old(self)@.current();
                let object = pod.type_ == super::model::SPA_TYPE_OBJECT && pod.body.len() >= 8;
                &&& !object ==> r == Err::<(Frame, Id), DeserializeError>(
                    DeserializeError::TypeMismatch,
                )
                &&& object && spec_u32_from_bytes(pod.order, pod.body) != type_ ==> r == Err::<
                    (Frame, Id),
                    DeserializeError,
                >(DeserializeError::ObjectTypeMismatch)
                &&& object && spec_u32_from_bytes(pod.order, pod.body) == type_ ==> r is Ok
                    && r->Ok_0.1 == Id(spec_u32_from_bytes(pod.order, pod.body.skip(4)))
            }),
            r is Err ==> final(self)@ == old(self)@,
            r is Ok ==> final(self)@ == old(self)@.pushed(old(self)@.data.len() as int) && final(self).is_top(r->Ok_0.0),
    {
        let limit = self.limit();
        let len = self.data.len();
        if self.offset % 8 != 0 || self.offset > limit {
            return Err(DeserializeError::Truncated);
        }
        match pod_bounds(self.order, self.data, self.offset, limit) {
            Err(_) => Err(DeserializeError::Truncated),
            Ok((pod_type, size, total)) => {
                if pod_type != super::model::SPA_TYPE_OBJECT || size < 8 {
                    return Err(DeserializeError::TypeMismatch);
                }
                let object_type = read_u32(self.order, self.data, self.offset + 8);
                let id = read_u32(self.order, self.data, self.offset + 12);
                proof {
                    let pod = self@.current();
                    lemma_u32_same(
                        self.order,
                        self.data@.subrange(self.offset + 8, self.offset + 12),
                        pod.body,
                    );
                    lemma_u32_same(
                        self.order,
                        self.data@.subrange(self.offset + 12, self.offset + 16),
                        pod.body.skip(4),
                    );
                }
                if object_type != type_ {
                    return Err(DeserializeError::ObjectTypeMismatch);
                }
                let frame = Frame::at(self.frames.len(), self.offset);
                self.frames.push(OpenFrame { offset: self.offset, size: 8 + size });
                self.offset = len;
                proof {
                    assert(self@.frames =~= old(self)@.pushed(len as int).frames);
                }
                Ok((frame, Id(id)))
            },
        }
    }

    /// Whether `frame` is the container that was stepped into last and not
    /// left yet.
    pub fn is_top_frame(&self, frame: &Frame) -> (r: bool)
        ensures
            r == self.is_top(*frame),
    {
        let depth = self.frames.len();
        depth > 0 && depth - 1 == frame.level() && self.frames[depth - 1].offset == frame.start()
    }

    /// Leaves the container that was stepped into last: the parser then
    /// stands behind it. Only that container may be left.
    pub fn pop(&mut self, frame: &Frame) -> (r: Result<(), DeserializeError>)
        requires
            old(self).inv(),
            old(self).is_top(*frame),
        ensures
            r is Ok,
            final(self).inv(),
            final(self)@ == old(self)@.popped(),
    {
        let depth = self.frames.len();
        let len = self.data.len();
        proof {
            let top = self@.frames[depth - 1];
            assert(top.offset + spec_round_up(top.size) <= self@.data.len());
        }
        let open = self.frames.pop().unwrap();
        self.offset = open.offset + open.size + padding(open.size);
        proof {
            assert(self@.frames =~= old(self)@.frames.drop_last());
            assert forall|i: int| 0 <= i < self@.frames.len() implies 0 <= (
            #[trigger] self@.frames[i]).offset && 8 <= self@.frames[i].size
                && self@.frames[i].offset + spec_round_up(self@.frames[i].size)
                <= self@.data.len() by {
                assert(self@.frames[i] == old(self)@.frames[i]);
            }
        }
        Ok(())
    }

    /// Leaves the container that was stepped into last, if `frame` is that
    /// one. Otherwise nothing changes.
    pub fn checked_pop(&mut self, frame: &Frame) -> (r: Result<(), BuilderError>)
        requires
            old(self).inv(),
        ensures
            final(self).inv(),
            match r {
                Ok(_) => old(self).is_top(*frame) && final(self)@ == old(self)@.popped(),
                Err(e) => e == BuilderError::NotTopFrame && !old(self).is_top(*frame) && final(self)@ == old(self)@,
            },
    {
        if !self.is_top_frame(frame) {
            return Err(BuilderError::NotTopFrame);
        }
        let done = self.pop(frame);
        Ok(())
    }
}

} // verus!
