//! A builder that appends pods to a growing buffer.
//!
//! Containers are opened with one of the `push_` methods, which hands out a
//! [`Frame`], and closed with [`Builder::pop`], which writes the size of what
//! was added in between into the header of the container. Frames are kept as
//! offsets into the buffer, so they stay valid when the buffer grows.

use vstd::prelude::*;
use vstd::utf8::encode_utf8;

use super::canonical::CanonicalFixedSizedPod;
use super::model::{
    Fixed, ValueView, SPA_TYPE_ARRAY, SPA_TYPE_BOOL, SPA_TYPE_BYTES, SPA_TYPE_CHOICE,
    SPA_TYPE_DOUBLE, SPA_TYPE_FD, SPA_TYPE_FLOAT, SPA_TYPE_FRACTION, SPA_TYPE_ID, SPA_TYPE_INT,
    SPA_TYPE_LONG, SPA_TYPE_NONE, SPA_TYPE_OBJECT, SPA_TYPE_POINTER, SPA_TYPE_RECTANGLE,
    SPA_TYPE_SEQUENCE, SPA_TYPE_STRING, SPA_TYPE_STRUCT,
};
use super::wire::{
    padding, spec_header, spec_padding, spec_u32_bytes, spec_zeros, write_u32, write_u64, ByteOrder,
};
use crate::utils::{Double, Fd, Float, Fraction, Id, Rectangle};

verus! {

/// What the builder writes for a pod that is added.
#[derive(Debug, Copy, Clone, Eq, PartialEq, Structural)]
pub enum Mode {
    /// Whole pods: header, body and padding.
    Pods,
    /// Inside an array or choice that has no element yet: the header and body
    /// of the first element, without padding.
    FirstElement,
    /// Inside an array or choice after its first element: bodies only.
    Elements,
}

/// A container that was opened and is not closed yet.
pub struct FrameView {
    /// Where the header of the container stands in the buffer.
    pub offset: int,
    /// The type of the container.
    pub type_: u32,
    /// The mode the builder was in when the container was opened.
    pub mode: Mode,
}

/// The state of a [`Builder`].
pub struct BuilderView {
    /// The order in which integers are written.
    pub order: ByteOrder,
    /// The buffer.
    pub data: Seq<u8>,
    /// Where the next byte goes.
    pub offset: int,
    /// What is written for a pod that is added.
    pub mode: Mode,
    /// The open containers, the innermost last.
    pub frames: Seq<FrameView>,
}

/// `data` with `bytes` written over it from `offset` on. The buffer grows by
/// what does not fit.
pub open spec fn spec_overwrite(data: Seq<u8>, offset: int, bytes: Seq<u8>) -> Seq<u8> {
    if offset + bytes.len() <= data.len() {
        data.take(offset) + bytes + data.skip(offset + bytes.len())
    } else {
        data.take(offset) + bytes
    }
}

impl BuilderView {
    /// What holds of every builder: the write position is inside the buffer
    /// or at its end, and the headers of the open containers lie before it,
    /// one after the other.
    pub open spec fn inv(self) -> bool {
        &&& 0 <= self.offset <= self.data.len()
        &&& forall|i: int|
            0 <= i < self.frames.len() ==> 0 <= (#[trigger] self.frames[i]).offset
                && self.frames[i].offset + 8 <= self.offset
        &&& forall|i: int, j: int|
            0 <= i < j < self.frames.len() ==> (#[trigger] self.frames[i]).offset + 8 <= (
            #[trigger] self.frames[j]).offset
    }

    /// Whether the builder stands at the end of its buffer, so that nothing
    /// is behind the write position. A builder that begins with an empty
    /// buffer does, and stays there whatever it is asked to write.
    pub open spec fn at_end(self) -> bool {
        self.offset == self.data.len()
    }

    /// The state after `bytes` were written as they are.
    pub open spec fn raw(self, bytes: Seq<u8>) -> BuilderView {
        BuilderView {
            data: spec_overwrite(self.data, self.offset, bytes),
            offset: self.offset + bytes.len(),
            ..self
        }
    }

    /// The state after zero bytes were written that bring `size` to a
    /// multiple of 8.
    pub open spec fn pad(self, size: int) -> BuilderView {
        self.raw(spec_zeros(spec_padding(size as nat)))
    }

    /// The state after a pod of the given type and body was added.
    pub open spec fn primitive(self, type_: u32, body: Seq<u8>) -> BuilderView {
        match self.mode {
            Mode::Pods => self.raw(spec_header(self.order, body.len() as u32, type_) + body).pad(
                body.len() as int,
            ),
            Mode::FirstElement => BuilderView {
                mode: Mode::Elements,
                ..self.raw(spec_header(self.order, body.len() as u32, type_) + body)
            },
            Mode::Elements => self.raw(body),
        }
    }

    /// The state after a container of the given type was opened by writing
    /// `head`, which begins with the header of the container.
    pub open spec fn push(self, type_: u32, head: Seq<u8>) -> BuilderView {
        BuilderView {
            frames: self.frames.push(
                FrameView { offset: self.offset, type_, mode: self.mode },
            ),
            mode: if type_ == SPA_TYPE_ARRAY || type_ == SPA_TYPE_CHOICE {
                Mode::FirstElement
            } else {
                self.mode
            },
            ..self.raw(head)
        }
    }

    /// Size of the body of the innermost open container, were it closed now.
    pub open spec fn top_size(self) -> int {
        let filled = if self.mode == Mode::FirstElement {
            self.offset + 8
        } else {
            self.offset
        };
        filled - self.frames.last().offset - 8
    }

    /// The state after the innermost open container was closed: an array or
    /// choice without elements gets the header of an empty pod as its
    /// element, the size of the body is written into the header of the
    /// container, and the write position is brought to a multiple of 8.
    pub open spec fn pop(self) -> BuilderView {
        let frame = self.frames.last();
        let filled = if self.mode == Mode::FirstElement {
            self.raw(spec_header(self.order, 0, SPA_TYPE_NONE))
        } else {
            self
        };
        let patched = BuilderView {
            data: spec_overwrite(
                filled.data,
                frame.offset,
                spec_header(self.order, self.top_size() as u32, frame.type_),
            ),
            frames: self.frames.drop_last(),
            mode: frame.mode,
            ..filled
        };
        patched.pad(patched.offset)
    }
}

/// Writing `a` and then `b` is writing `a + b`.
pub proof fn lemma_raw_raw(b: BuilderView, x: Seq<u8>, y: Seq<u8>)
    requires
        0 <= b.offset <= b.data.len(),
    ensures
        b.raw(x).raw(y) == b.raw(x + y),
        0 <= b.raw(x).offset <= b.raw(x).data.len(),
{
    assert(b.raw(x).raw(y).data =~= b.raw(x + y).data);
}

/// Writing nothing changes nothing.
pub proof fn lemma_raw_empty(b: BuilderView)
    requires
        0 <= b.offset <= b.data.len(),
    ensures
        b.raw(Seq::empty()) == b,
{
    assert(b.raw(Seq::empty()).data =~= b.data);
}

/// Writing over a part of what was just written is writing the changed bytes
/// in the first place.
pub proof fn lemma_overwrite_patch(
    data: Seq<u8>,
    offset: int,
    written: Seq<u8>,
    at: int,
    patch: Seq<u8>,
)
    requires
        0 <= offset <= data.len(),
        0 <= at,
        at + patch.len() <= written.len(),
    ensures
        spec_overwrite(spec_overwrite(data, offset, written), offset + at, patch) == spec_overwrite(
            data,
            offset,
            written.take(at) + patch + written.skip(at + patch.len()),
        ),
{
    assert(spec_overwrite(spec_overwrite(data, offset, written), offset + at, patch)
        =~= spec_overwrite(
        data,
        offset,
        written.take(at) + patch + written.skip(at + patch.len()),
    ));
}

/// A container that a [`Builder`] has open. It is handed out when the
/// container is opened and handed back to close it.
#[derive(Debug, Copy, Clone, Eq, PartialEq, Structural)]
pub struct Frame {
    depth: usize,
    offset: usize,
}

/// Why a container could not be closed.
#[derive(Debug, Copy, Clone, Eq, PartialEq, Structural)]
pub enum BuilderError {
    /// The frame is not the one that was opened last and is still open.
    NotTopFrame,
    /// The body of the container is too large for the size field of a pod.
    TooLarge,
}

/// What the builder keeps of an open container.
struct OpenFrame {
    offset: usize,
    type_: u32,
    mode: Mode,
}

/// Builds pods into a buffer that grows as needed.
pub struct Builder {
    order: ByteOrder,
    data: Vec<u8>,
    offset: usize,
    mode: Mode,
    frames: Vec<OpenFrame>,
}

impl Frame {
    /// The frame of a container that was opened at `offset` while `depth`
    /// others were open.
    pub(crate) fn at(depth: usize, offset: usize) -> (r: Self)
        ensures
            r.depth() == depth,
            r.offset() == offset,
    {
        Frame { depth, offset }
    }

    /// Number of containers that were open when this one was opened.
    pub fn level(&self) -> (r: usize)
        ensures
            r == self.depth(),
    {
        self.depth
    }

    /// Where the header of the container stands in the buffer.
    pub fn start(&self) -> (r: usize)
        ensures
            r == self.offset(),
    {
        self.offset
    }

    /// Number of containers that were open when this one was opened.
    pub closed spec fn depth(self) -> nat {
        self.depth as nat
    }

    /// Where the header of the container stands in the buffer.
    pub closed spec fn offset(self) -> nat {
        self.offset as nat
    }
}

impl View for Builder {
    type V = BuilderView;

    closed spec fn view(&self) -> BuilderView {
        BuilderView {
            order: self.order,
            data: self.data@,
            offset: self.offset as int,
            mode: self.mode,
            frames: Seq::new(
                self.frames@.len(),
                |i: int|
                    FrameView {
                        offset: self.frames@[i].offset as int,
                        type_: self.frames@[i].type_,
                        mode: self.frames@[i].mode,
                    },
            ),
        }
    }
}

/// The header of a pod.
fn header(order: ByteOrder, size: u32, type_: u32) -> (r: Vec<u8>)
    ensures
        r@ == spec_header(order, size, type_),
        r@.len() == 8,
{
    let mut out: Vec<u8> = Vec::new();
    write_u32(order, size, &mut out);
    write_u32(order, type_, &mut out);
    proof {
        super::wire::lemma_u32_bytes(order, size);
        super::wire::lemma_u32_bytes(order, type_);
        assert(out@ =~= spec_header(order, size, type_));
    }
    out
}

/// `count` zero bytes.
fn zeros(count: usize) -> (r: Vec<u8>)
    ensures
        r@ == spec_zeros(count as nat),
{
    let mut out: Vec<u8> = Vec::new();
    let mut i: usize = 0;
    while i < count
        invariant
            i <= count,
            out@ == spec_zeros(i as nat),
        decreases count - i,
    {
        out.push(0u8);
        i += 1;
        assert(out@ =~= spec_zeros(i as nat));
    }
    out
}

/// Writes `bytes` over `data` from `offset` on; the buffer grows by what
/// does not fit.
fn overwrite(data: &mut Vec<u8>, offset: usize, bytes: &[u8])
    requires
        offset <= old(data)@.len(),
    ensures
        final(data)@ == spec_overwrite(old(data)@, offset as int, bytes@),
        offset + bytes@.len() <= final(data)@.len(),
        final(data)@.len() >= old(data)@.len(),
{
    let mut i: usize = 0;
    while i < bytes.len()
        invariant
            i <= bytes@.len(),
            offset <= old(data)@.len(),
            offset + i <= data@.len(),
            data@ == spec_overwrite(old(data)@, offset as int, bytes@.take(i as int)),
        decreases bytes@.len() - i,
    {
        let len = data.len();
        if offset + i < len {
            data.set(offset + i, bytes[i]);
        } else {
            data.push(bytes[i]);
        }
        i += 1;
        assert(data@ =~= spec_overwrite(old(data)@, offset as int, bytes@.take(i as int)));
    }
    assert(bytes@.take(bytes@.len() as int) =~= bytes@);
    assert(old(data)@ =~= spec_overwrite(old(data)@, offset as int, bytes@.take(0)));
}

impl Builder {
    /// What holds of every builder; see [`BuilderView::inv`].
    pub open spec fn inv(&self) -> bool {
        self@.inv()
    }

    /// Whether `frame` is the container that was opened last and is still open.
    pub open spec fn is_top(&self, frame: Frame) -> bool {
        &&& self@.frames.len() == frame.depth() + 1
        &&& self@.frames.last().offset == frame.offset()
    }

    /// A builder that writes into `data` from its beginning, in the byte
    /// order of this machine. What `data` holds is written over; it grows
    /// when more is added than it holds. `data` must not be longer than a
    /// 32-bit size can state.
    pub fn new(data: Vec<u8>) -> (r: Self)
        requires
            data@.len() <= u32::MAX,
        ensures
            r.inv(),
            r@.data == data@,
            r@.offset == 0,
            r@.mode == Mode::Pods,
            r@.frames.len() == 0,
            data@.len() == 0 ==> r@.at_end(),
    {
        Self::with_order(data, ByteOrder::native())
    }

    /// A builder that writes into `data` from its beginning, in the given
    /// byte order. `data` must not be longer than a 32-bit size can state.
    pub fn with_order(data: Vec<u8>, order: ByteOrder) -> (r: Self)
        requires
            data@.len() <= u32::MAX,
        ensures
            r.inv(),
            r@ == (BuilderView {
                order,
                data: data@,
                offset: 0,
                mode: Mode::Pods,
                frames: Seq::empty(),
            }),
    {
        Self::over(data, order)
    }

    /// A builder that writes into `data` from its beginning, whatever the
    /// length of `data`.
    pub(crate) fn over(data: Vec<u8>, order: ByteOrder) -> (r: Self)
        ensures
            r.inv(),
            r@ == (BuilderView {
                order,
                data: data@,
                offset: 0,
                mode: Mode::Pods,
                frames: Seq::empty(),
            }),
    {
        let r = Builder { order, data, offset: 0, mode: Mode::Pods, frames: Vec::new() };
        assert(r@.frames =~= Seq::empty());
        r
    }

    /// The order in which integers are written.
    pub fn order(&self) -> (r: ByteOrder)
        ensures
            r == self@.order,
    {
        self.order
    }

    /// Where the next byte goes.
    pub fn offset(&self) -> (r: usize)
        ensures
            r == self@.offset,
    {
        self.offset
    }

    /// The buffer as it stands.
    pub fn data(&self) -> (r: &Vec<u8>)
        ensures
            r@ == self@.data,
    {
        &self.data
    }

    /// Gives the buffer back.
    pub fn into_data(self) -> (r: Vec<u8>)
        ensures
            r@ == self@.data,
    {
        self.data
    }

    /// Writes `bytes` as they are.
    pub fn raw(&mut self, bytes: &[u8])
        requires
            old(self).inv(),
        ensures
            final(self).inv(),
            old(self)@.at_end() ==> final(self)@.at_end(),
            final(self)@ == old(self)@.raw(bytes@),
    {
        overwrite(&mut self.data, self.offset, bytes);
        let len = self.data.len();
        self.offset = self.offset + bytes.len();
        assert(self@.frames =~= old(self)@.frames);
    }

    /// Writes the zero bytes that bring `size` to a multiple of 8.
    pub fn pad(&mut self, size: usize)
        requires
            old(self).inv(),
        ensures
            final(self).inv(),
            old(self)@.at_end() ==> final(self)@.at_end(),
            final(self)@ == old(self)@.pad(size as int),
    {
        let fill = zeros(padding(size));
        self.raw(fill.as_slice());
    }

    /// Writes `data` as it is, and then zero bytes up to a multiple of 8.
    /// `data` must not be longer than a 32-bit size can state.
    pub fn raw_padded(&mut self, data: &[u8]) -> (r: Result<(), BuilderError>)
        requires
            old(self).inv(),
            data@.len() <= u32::MAX,
        ensures
            r is Ok,
            final(self).inv(),
            old(self)@.at_end() ==> final(self)@.at_end(),
            final(self)@ == old(self)@.raw(data@).pad(data@.len() as int),
    {
        self.raw(data);
        self.pad(data.len());
        Ok(())
    }

    /// Adds a pod of the given type and body, as the mode asks.
    pub fn primitive(&mut self, type_: u32, body: &[u8])
        requires
            old(self).inv(),
            body@.len() <= u32::MAX,
        ensures
            final(self).inv(),
            old(self)@.at_end() ==> final(self)@.at_end(),
            final(self)@ == old(self)@.primitive(type_, body@),
    {
        match self.mode {
            Mode::Pods => {
                let head = header(self.order, body.len() as u32, type_);
                self.raw(head.as_slice());
                self.raw(body);
                self.pad(body.len());
                proof {
                    lemma_raw_raw(old(self)@, head@, body@);
                }
            },
            Mode::FirstElement => {
                let head = header(self.order, body.len() as u32, type_);
                self.raw(head.as_slice());
                self.raw(body);
                self.mode = Mode::Elements;
                proof {
                    lemma_raw_raw(old(self)@, head@, body@);
                    assert(self@.frames =~= old(self)@.frames);
                }
            },
            Mode::Elements => {
                self.raw(body);
            },
        }
    }

    /// Adds the pod of a value of a fixed-size kind.
    pub fn add_fixed<T: CanonicalFixedSizedPod>(&mut self, value: &T)
        requires
            old(self).inv(),
        ensures
            final(self).inv(),
            old(self)@.at_end() ==> final(self)@.at_end(),
            final(self)@ == old(self)@.primitive(
                T::spec_kind().spec_type(),
                value.spec_fixed().spec_body(old(self)@.order),
            ),
    {
        let mut body: Vec<u8> = Vec::new();
        value.serialize_body(self.order, &mut body);
        proof {
            value.lemma_fixed();
            super::laws::lemma_fixed_body_len(self.order, value.spec_fixed());
            assert(Seq::<u8>::empty() + value.spec_fixed().spec_body(self.order)
                =~= value.spec_fixed().spec_body(self.order));
        }
        self.primitive(T::kind().type_(), body.as_slice());
    }

    /// Adds a pod without a value.
    pub fn add_none(&mut self) -> (r: Result<(), BuilderError>)
        requires
            old(self).inv(),
        ensures
            r is Ok,
            final(self).inv(),
            old(self)@.at_end() ==> final(self)@.at_end(),
            final(self)@ == old(self)@.primitive(SPA_TYPE_NONE, Fixed::Null.spec_body(old(self)@.order)),
    {
        self.add_fixed(&());
        Ok(())
    }

    /// Adds a boolean.
    pub fn add_bool(&mut self, val: bool) -> (r: Result<(), BuilderError>)
        requires
            old(self).inv(),
        ensures
            r is Ok,
            final(self).inv(),
            old(self)@.at_end() ==> final(self)@.at_end(),
            final(self)@ == old(self)@.primitive(
                SPA_TYPE_BOOL,
                Fixed::Bool(val).spec_body(old(self)@.order),
            ),
    {
        self.add_fixed(&val);
        Ok(())
    }

    /// Adds an enumerated value.
    pub fn add_id(&mut self, val: Id) -> (r: Result<(), BuilderError>)
        requires
            old(self).inv(),
        ensures
            r is Ok,
            final(self).inv(),
            old(self)@.at_end() ==> final(self)@.at_end(),
            final(self)@ == old(self)@.primitive(
                SPA_TYPE_ID,
                Fixed::Id(val.0).spec_body(old(self)@.order),
            ),
    {
        self.add_fixed(&val);
        Ok(())
    }

    /// Adds a 32 bits integer.
    pub fn add_int(&mut self, val: i32) -> (r: Result<(), BuilderError>)
        requires
            old(self).inv(),
        ensures
            r is Ok,
            final(self).inv(),
            old(self)@.at_end() ==> final(self)@.at_end(),
            final(self)@ == old(self)@.primitive(
                SPA_TYPE_INT,
                Fixed::Int(val).spec_body(old(self)@.order),
            ),
    {
        self.add_fixed(&val);
        Ok(())
    }

    /// Adds a 64 bits integer.
    pub fn add_long(&mut self, val: i64) -> (r: Result<(), BuilderError>)
        requires
            old(self).inv(),
        ensures
            r is Ok,
            final(self).inv(),
            old(self)@.at_end() ==> final(self)@.at_end(),
            final(self)@ == old(self)@.primitive(
                SPA_TYPE_LONG,
                Fixed::Long(val).spec_body(old(self)@.order),
            ),
    {
        self.add_fixed(&val);
        Ok(())
    }

    /// Adds a 32 bits floating point number.
    pub fn add_float(&mut self, val: Float) -> (r: Result<(), BuilderError>)
        requires
            old(self).inv(),
        ensures
            r is Ok,
            final(self).inv(),
            old(self)@.at_end() ==> final(self)@.at_end(),
            final(self)@ == old(self)@.primitive(
                SPA_TYPE_FLOAT,
                Fixed::Float(val.0).spec_body(old(self)@.order),
            ),
    {
        self.add_fixed(&val);
        Ok(())
    }

    /// Adds a 64 bits floating point number.
    pub fn add_double(&mut self, val: Double) -> (r: Result<(), BuilderError>)
        requires
            old(self).inv(),
        ensures
            r is Ok,
            final(self).inv(),
            old(self)@.at_end() ==> final(self)@.at_end(),
            final(self)@ == old(self)@.primitive(
                SPA_TYPE_DOUBLE,
                Fixed::Double(val.0).spec_body(old(self)@.order),
            ),
    {
        self.add_fixed(&val);
        Ok(())
    }

    /// Adds a file descriptor.
    pub fn add_fd(&mut self, val: i32) -> (r: Result<(), BuilderError>)
        requires
            old(self).inv(),
        ensures
            r is Ok,
            final(self).inv(),
            old(self)@.at_end() ==> final(self)@.at_end(),
            final(self)@ == old(self)@.primitive(
                SPA_TYPE_FD,
                Fixed::Fd(val as i64).spec_body(old(self)@.order),
            ),
    {
        self.add_fixed(&Fd(val as i64));
        Ok(())
    }

    /// Adds a rectangle.
    pub fn add_rectangle(&mut self, val: Rectangle) -> (r: Result<(), BuilderError>)
        requires
            old(self).inv(),
        ensures
            r is Ok,
            final(self).inv(),
            old(self)@.at_end() ==> final(self)@.at_end(),
            final(self)@ == old(self)@.primitive(
                SPA_TYPE_RECTANGLE,
                Fixed::Rectangle(val.width, val.height).spec_body(old(self)@.order),
            ),
    {
        self.add_fixed(&val);
        Ok(())
    }

    /// Adds a fraction.
    pub fn add_fraction(&mut self, val: Fraction) -> (r: Result<(), BuilderError>)
        requires
            old(self).inv(),
        ensures
            r is Ok,
            final(self).inv(),
            old(self)@.at_end() ==> final(self)@.at_end(),
            final(self)@ == old(self)@.primitive(
                SPA_TYPE_FRACTION,
                Fixed::Fraction(val.num, val.denom).spec_body(old(self)@.order),
            ),
    {
        self.add_fixed(&val);
        Ok(())
    }

    /// Adds a pointer: the type of what it points to, and its address.
    pub fn add_pointer(&mut self, type_: Id, val: u64) -> (r: Result<(), BuilderError>)
        requires
            old(self).inv(),
        ensures
            r is Ok,
            final(self).inv(),
            old(self)@.at_end() ==> final(self)@.at_end(),
            final(self)@ == old(self)@.primitive(
                SPA_TYPE_POINTER,
                ValueView::Pointer(type_.0, val).spec_body(old(self)@.order),
            ),
    {
        let mut body: Vec<u8> = Vec::new();
        write_u32(self.order, type_.0, &mut body);
        write_u32(self.order, 0, &mut body);
        write_u64(self.order, val, &mut body);
        proof {
            super::wire::lemma_u32_bytes(self.order, type_.0);
            super::wire::lemma_u32_bytes(self.order, 0);
            super::wire::lemma_u64_bytes(self.order, val);
            assert(body@ =~= ValueView::Pointer(type_.0, val).spec_body(self.order));
        }
        self.primitive(SPA_TYPE_POINTER, body.as_slice());
        Ok(())
    }

    /// Adds a string pod: the bytes of `string`, and a zero byte that ends
    /// them. The pod has its header in every mode.
    pub fn add_string(&mut self, string: &str) -> (r: Result<(), BuilderError>)
        requires
            old(self).inv(),
            string@.len() >= 0,
            forall|i: int|
                0 <= i < encode_utf8(string@).len() ==> #[trigger] encode_utf8(string@)[i] != 0,
            encode_utf8(string@).len() < u32::MAX,
        ensures
            r is Ok,
            final(self).inv(),
            old(self)@.at_end() ==> final(self)@.at_end(),
            final(self)@ == ({
                let body = encode_utf8(string@).push(0u8);
                let written = old(self)@.raw(
                    spec_header(old(self)@.order, body.len() as u32, SPA_TYPE_STRING) + body,
                );
                written.pad(written.offset)
            }),
    {
        let bytes = string.as_bytes();
        let head = header(self.order, (bytes.len() + 1) as u32, SPA_TYPE_STRING);
        let end: Vec<u8> = vec![0u8];
        self.raw(head.as_slice());
        self.raw(bytes);
        self.raw(end.as_slice());
        proof {
            let body = encode_utf8(string@).push(0u8);
            assert(end@ =~= seq![0u8]);
            assert(bytes@ + end@ =~= body);
            lemma_raw_raw(old(self)@, head@, bytes@);
            lemma_raw_raw(old(self)@, head@ + bytes@, end@);
            assert(head@ + bytes@ + end@ =~= head@ + body);
        }
        self.pad(self.offset);
        Ok(())
    }

    /// Adds a bytes pod. The pod has its header in every mode.
    pub fn add_bytes(&mut self, bytes: &[u8]) -> (r: Result<(), BuilderError>)
        requires
            old(self).inv(),
            bytes@.len() <= u32::MAX,
        ensures
            r is Ok,
            final(self).inv(),
            old(self)@.at_end() ==> final(self)@.at_end(),
            final(self)@ == old(self)@.raw(
                spec_header(old(self)@.order, bytes@.len() as u32, SPA_TYPE_BYTES) + bytes@,
            ).pad(bytes@.len() as int),
    {
        let head = header(self.order, bytes.len() as u32, SPA_TYPE_BYTES);
        self.raw(head.as_slice());
        self.raw(bytes);
        proof {
            lemma_raw_raw(old(self)@, head@, bytes@);
        }
        self.pad(bytes.len());
        Ok(())
    }

    /// Adds an array pod whose elements are given as their bodies, one after
    /// the other. The pod has its header in every mode.
    pub fn add_array(&mut self, child_size: u32, child_type: u32, n_elems: u32, elems: &[u8]) -> (r:
        Result<(), BuilderError>)
        requires
            old(self).inv(),
            elems@.len() == child_size * n_elems,
            8 + elems@.len() <= u32::MAX,
        ensures
            r is Ok,
            final(self).inv(),
            old(self)@.at_end() ==> final(self)@.at_end(),
            final(self)@ == old(self)@.raw(
                spec_header(old(self)@.order, (8 + elems@.len()) as u32, SPA_TYPE_ARRAY)
                    + spec_header(old(self)@.order, child_size, child_type) + elems@,
            ).pad(elems@.len() as int),
    {
        let head = header(self.order, (8 + elems.len()) as u32, SPA_TYPE_ARRAY);
        let child = header(self.order, child_size, child_type);
        self.raw(head.as_slice());
        self.raw(child.as_slice());
        self.raw(elems);
        proof {
            lemma_raw_raw(old(self)@, head@, child@);
            lemma_raw_raw(old(self)@, head@ + child@, elems@);
        }
        self.pad(elems.len());
        Ok(())
    }

    /// Opens a container of the given type by writing `head`.
    fn push(&mut self, type_: u32, head: &[u8]) -> (frame: Frame)
        requires
            old(self).inv(),
            head@.len() >= 8,
        ensures
            final(self).inv(),
            old(self)@.at_end() ==> final(self)@.at_end(),
            final(self)@ == old(self)@.push(type_, head@),
            final(self).is_top(frame),
            frame.depth() == old(self)@.frames.len(),
            frame.offset() == old(self)@.offset,
    {
        let frame = Frame { depth: self.frames.len(), offset: self.offset };
        self.frames.push(OpenFrame { offset: self.offset, type_, mode: self.mode });
        overwrite(&mut self.data, self.offset, head);
        let len = self.data.len();
        self.offset = self.offset + head.len();
        if type_ == SPA_TYPE_ARRAY || type_ == SPA_TYPE_CHOICE {
            self.mode = Mode::FirstElement;
        }
        proof {
            assert(self@.frames =~= old(self)@.push(type_, head@).frames);
        }
        frame
    }

    /// Opens an array. Its elements are added as pods of one fixed-size
    /// kind; the first gives the array its element size and type.
    pub fn push_array(&mut self) -> (r: Result<Frame, BuilderError>)
        requires
            old(self).inv(),
        ensures
            r is Ok,
            final(self).inv(),
            old(self)@.at_end() ==> final(self)@.at_end(),
            final(self)@ == old(self)@.push(
                SPA_TYPE_ARRAY,
                spec_header(old(self)@.order, 0, SPA_TYPE_ARRAY),
            ),
            final(self).is_top(r->Ok_0),
            r->Ok_0.depth() == old(self)@.frames.len(),
            r->Ok_0.offset() == old(self)@.offset,
    {
        let head = header(self.order, 0, SPA_TYPE_ARRAY);
        Ok(self.push(SPA_TYPE_ARRAY, head.as_slice()))
    }

    /// Opens a choice of the given sort and flags. Its values are added as
    /// pods of one fixed-size kind, the default first.
    pub fn push_choice(&mut self, type_: u32, flags: u32) -> (r: Result<Frame, BuilderError>)
        requires
            old(self).inv(),
        ensures
            r is Ok,
            final(self).inv(),
            old(self)@.at_end() ==> final(self)@.at_end(),
            final(self)@ == old(self)@.push(
                SPA_TYPE_CHOICE,
                spec_header(old(self)@.order, 8, SPA_TYPE_CHOICE) + spec_u32_bytes(
                    old(self)@.order,
                    type_,
                ) + spec_u32_bytes(old(self)@.order, flags),
            ),
            final(self).is_top(r->Ok_0),
            r->Ok_0.depth() == old(self)@.frames.len(),
            r->Ok_0.offset() == old(self)@.offset,
    {
        let mut head = header(self.order, 8, SPA_TYPE_CHOICE);
        write_u32(self.order, type_, &mut head);
        write_u32(self.order, flags, &mut head);
        Ok(self.push(SPA_TYPE_CHOICE, head.as_slice()))
    }

    /// Opens a struct. Its fields are added as pods.
    pub fn push_struct(&mut self) -> (r: Result<Frame, BuilderError>)
        requires
            old(self).inv(),
        ensures
            r is Ok,
            final(self).inv(),
            old(self)@.at_end() ==> final(self)@.at_end(),
            final(self)@ == old(self)@.push(
                SPA_TYPE_STRUCT,
                spec_header(old(self)@.order, 0, SPA_TYPE_STRUCT),
            ),
            final(self).is_top(r->Ok_0),
            r->Ok_0.depth() == old(self)@.frames.len(),
            r->Ok_0.offset() == old(self)@.offset,
    {
        let head = header(self.order, 0, SPA_TYPE_STRUCT);
        Ok(self.push(SPA_TYPE_STRUCT, head.as_slice()))
    }

    /// Opens an object of the given type and id. Each of its properties is
    /// added with [`add_prop`](Self::add_prop), followed by the pod of its value.
    pub fn push_object(&mut self, type_: u32, id: u32) -> (r: Result<Frame, BuilderError>)
        requires
            old(self).inv(),
        ensures
            r is Ok,
            final(self).inv(),
            old(self)@.at_end() ==> final(self)@.at_end(),
            final(self)@ == old(self)@.push(
                SPA_TYPE_OBJECT,
                spec_header(old(self)@.order, 8, SPA_TYPE_OBJECT) + spec_u32_bytes(
                    old(self)@.order,
                    type_,
                ) + spec_u32_bytes(old(self)@.order, id),
            ),
            final(self).is_top(r->Ok_0),
            r->Ok_0.depth() == old(self)@.frames.len(),
            r->Ok_0.offset() == old(self)@.offset,
    {
        let mut head = header(self.order, 8, SPA_TYPE_OBJECT);
        write_u32(self.order, type_, &mut head);
        write_u32(self.order, id, &mut head);
        Ok(self.push(SPA_TYPE_OBJECT, head.as_slice()))
    }

    /// Writes the key and the flags of a property. The pod of its value
    /// comes next.
    pub fn add_prop(&mut self, key: u32, flags: u32) -> (r: Result<(), BuilderError>)
        requires
            old(self).inv(),
        ensures
            r is Ok,
            final(self).inv(),
            old(self)@.at_end() ==> final(self)@.at_end(),
            final(self)@ == old(self)@.raw(
                spec_u32_bytes(old(self)@.order, key) + spec_u32_bytes(old(self)@.order, flags),
            ),
    {
        let mut head: Vec<u8> = Vec::new();
        write_u32(self.order, key, &mut head);
        write_u32(self.order, flags, &mut head);
        assert(head@ =~= spec_u32_bytes(self.order, key) + spec_u32_bytes(self.order, flags));
        self.raw(head.as_slice());
        Ok(())
    }

    /// Opens a sequence with the given unit. Each of its controls is added
    /// with [`add_control`](Self::add_control), followed by the pod of its value.
    pub fn push_sequence(&mut self, unit: u32) -> (r: Result<Frame, BuilderError>)
        requires
            old(self).inv(),
        ensures
            r is Ok,
            final(self).inv(),
            old(self)@.at_end() ==> final(self)@.at_end(),
            final(self)@ == old(self)@.push(
                SPA_TYPE_SEQUENCE,
                spec_header(old(self)@.order, 8, SPA_TYPE_SEQUENCE) + spec_u32_bytes(
                    old(self)@.order,
                    unit,
                ) + spec_u32_bytes(old(self)@.order, 0),
            ),
            final(self).is_top(r->Ok_0),
            r->Ok_0.depth() == old(self)@.frames.len(),
            r->Ok_0.offset() == old(self)@.offset,
    {
        let mut head = header(self.order, 8, SPA_TYPE_SEQUENCE);
        write_u32(self.order, unit, &mut head);
        write_u32(self.order, 0, &mut head);
        Ok(self.push(SPA_TYPE_SEQUENCE, head.as_slice()))
    }

    /// Writes the offset and the type of a control. The pod of its value
    /// comes next. Returns 0.
    pub fn add_control(&mut self, offset: u32, type_: u32) -> (r: i32)
        requires
            old(self).inv(),
        ensures
            r == 0,
            final(self).inv(),
            old(self)@.at_end() ==> final(self)@.at_end(),
            final(self)@ == old(self)@.raw(
                spec_u32_bytes(old(self)@.order, offset) + spec_u32_bytes(old(self)@.order, type_),
            ),
    {
        let mut head: Vec<u8> = Vec::new();
        write_u32(self.order, offset, &mut head);
        write_u32(self.order, type_, &mut head);
        assert(head@ =~= spec_u32_bytes(self.order, offset) + spec_u32_bytes(self.order, type_));
        self.raw(head.as_slice());
        0
    }

    /// Whether `frame` is the container that was opened last and is still open.
    pub fn is_top_frame(&self, frame: &Frame) -> (r: bool)
        ensures
            r == self.is_top(*frame),
    {
        let depth = self.frames.len();
        depth > 0 && depth - 1 == frame.depth && self.frames[depth - 1].offset == frame.offset
    }

    /// Closes the container that was opened last. Only that one may be
    /// closed, and its body must fit the size field of a pod.
    pub fn pop(&mut self, frame: &Frame)
        requires
            old(self).inv(),
            old(self).is_top(*frame),
            old(self)@.top_size() <= u32::MAX,
        ensures
            final(self).inv(),
            old(self)@.at_end() ==> final(self)@.at_end() && final(self)@.data.len() % 8 == 0,
            final(self)@ == old(self)@.pop(),
    {
        proof {
            if self@.at_end() {
                super::frames::lemma_at_end_pop(self@);
            }
        }
        if let Mode::FirstElement = self.mode {
            let empty = header(self.order, 0, SPA_TYPE_NONE);
            self.raw(empty.as_slice());
        }
        let ghost filled = self@;
        let depth = self.frames.len();
        let open = self.frames.pop().unwrap();
        let size = self.offset - open.offset - 8;
        let head = header(self.order, size as u32, open.type_);
        overwrite(&mut self.data, open.offset, head.as_slice());
        self.mode = open.mode;
        proof {
            assert(self@.frames =~= old(self)@.frames.drop_last());
            assert(self@.data =~= spec_overwrite(filled.data, open.offset as int, head@));
        }
        self.pad(self.offset);
    }

    /// Closes the container that was opened last, if `frame` is that one and
    /// its body fits the size field of a pod. Otherwise nothing changes.
    pub fn checked_pop(&mut self, frame: &Frame) -> (r: Result<(), BuilderError>)
        requires
            old(self).inv(),
        ensures
            final(self).inv(),
            old(self)@.at_end() ==> final(self)@.at_end(),
            old(self)@.at_end() && r is Ok ==> final(self)@.data.len() % 8 == 0,
            match r {
                Ok(_) => old(self).is_top(*frame) && old(self)@.top_size() <= u32::MAX
                    && final(self)@ == old(self)@.pop(),
                Err(BuilderError::NotTopFrame) => !old(self).is_top(*frame)
                    && final(self)@ == old(self)@,
                Err(BuilderError::TooLarge) => old(self).is_top(*frame) && old(self)@.top_size()
                    > u32::MAX && final(self)@ == old(self)@,
            },
    {
        if !self.is_top_frame(frame) {
            return Err(BuilderError::NotTopFrame);
        }
        let extra: usize = if let Mode::FirstElement = self.mode {
            8
        } else {
            0
        };
        let body = self.offset - frame.offset - 8;
        if body > u32::MAX as usize - extra {
            return Err(BuilderError::TooLarge);
        }
        self.pop(frame);
        Ok(())
    }
}

} // verus!
