//! Stepping through the children of a container pod without copying them.
//!
//! The children of a struct, the properties of an object, the controls of a
//! sequence and the elements of an array or a choice are handed out as
//! views into the bytes of the container, in the order in which they stand.
//! A child that does not lie within the body of its container is an error.

use vstd::prelude::*;
use vstd::slice::slice_subrange;

use super::deserialize::pod_bounds;
use super::model::{
    spec_bounds, DeserializeError, SPA_TYPE_ARRAY, SPA_TYPE_CHOICE, SPA_TYPE_OBJECT,
    SPA_TYPE_SEQUENCE, SPA_TYPE_STRUCT,
};
use super::reader::{Pod, PodView};
use super::wire::{lemma_u32_same, read_u32, spec_u32_from_bytes, ByteOrder};

verus! {

/// A property of an object, with its value as a pod.
pub struct PropertyRefView {
    /// The key.
    pub key: u32,
    /// The bits of the flags.
    pub flags: u32,
    /// The pod of the value.
    pub value: PodView,
}

/// A control of a sequence, with its value as a pod.
pub struct ControlRefView {
    /// The offset, in the unit of the sequence.
    pub offset: u32,
    /// The type of the control.
    pub type_: u32,
    /// The pod of the value.
    pub value: PodView,
}

/// A property of an object, with its value as a pod in borrowed bytes.
#[derive(Debug, Copy, Clone)]
pub struct PropertyRef<'a> {
    /// Key of the property.
    pub key: u32,
    /// Flags of the property.
    pub flags: u32,
    /// The pod of the value of the property.
    pub value: Pod<'a>,
}

/// A control of a sequence, with its value as a pod in borrowed bytes.
#[derive(Debug, Copy, Clone)]
pub struct ControlRef<'a> {
    /// The offset of the control, in the unit of the sequence.
    pub offset: u32,
    /// The type of the control.
    pub type_: u32,
    /// The pod of the value of the control.
    pub value: Pod<'a>,
}

/// The elements of an array or the values of a choice: bodies of one size
/// and type, without headers.
pub struct ElementsView {
    /// The size of the body of an element.
    pub child_size: u32,
    /// The type of the elements.
    pub child_type: u32,
    /// The bodies of the elements.
    pub bodies: Seq<Seq<u8>>,
}

/// The elements of an array or the values of a choice, in borrowed bytes.
#[derive(Debug, Clone)]
pub struct Elements<'a> {
    /// The size of the body of an element.
    pub child_size: u32,
    /// The type of the elements.
    pub child_type: u32,
    /// The bodies of the elements.
    pub bodies: Vec<&'a [u8]>,
}

impl<'a> View for PropertyRef<'a> {
    type V = PropertyRefView;

    open spec fn view(&self) -> PropertyRefView {
        PropertyRefView { key: self.key, flags: self.flags, value: self.value@ }
    }
}

impl<'a> View for ControlRef<'a> {
    type V = ControlRefView;

    open spec fn view(&self) -> ControlRefView {
        ControlRefView { offset: self.offset, type_: self.type_, value: self.value@ }
    }
}

impl<'a> View for Elements<'a> {
    type V = ElementsView;

    open spec fn view(&self) -> ElementsView {
        ElementsView {
            child_size: self.child_size,
            child_type: self.child_type,
            bodies: Seq::new(self.bodies@.len(), |i: int| self.bodies@[i]@),
        }
    }
}

/// The pod at the front of `bytes`, whose bounds are known to be there.
pub open spec fn spec_front(order: ByteOrder, bytes: Seq<u8>) -> PodView {
    let bounds = spec_bounds(order, bytes)->Ok_0;
    PodView { order, type_: bounds.type_, body: bytes.subrange(8, 8 + bounds.size) }
}

/// The pods that stand one after the other in `bytes` and fill it.
pub open spec fn spec_children(order: ByteOrder, bytes: Seq<u8>) -> Result<
    Seq<PodView>,
    DeserializeError,
>
    decreases bytes.len(),
{
    if bytes.len() == 0 {
        Ok(Seq::empty())
    } else {
        match spec_bounds(order, bytes) {
            Err(e) => Err(e),
            Ok(bounds) => match spec_children(order, bytes.skip(bounds.total)) {
                Err(e) => Err(e),
                Ok(rest) => Ok(seq![spec_front(order, bytes)] + rest),
            },
        }
    }
}

/// The entries that stand one after the other in `bytes` and fill it. Each
/// is two integers and then a pod.
pub open spec fn spec_entries(order: ByteOrder, bytes: Seq<u8>) -> Result<
    Seq<(u32, u32, PodView)>,
    DeserializeError,
>
    decreases bytes.len(),
{
    if bytes.len() == 0 {
        Ok(Seq::empty())
    } else if bytes.len() < 8 {
        Err(DeserializeError::Truncated)
    } else {
        match spec_bounds(order, bytes.skip(8)) {
            Err(e) => Err(e),
            Ok(bounds) => match spec_entries(order, bytes.skip(8 + bounds.total)) {
                Err(e) => Err(e),
                Ok(rest) => Ok(
                    seq![
                        (
                            spec_u32_from_bytes(order, bytes),
                            spec_u32_from_bytes(order, bytes.skip(4)),
                            spec_front(order, bytes.skip(8)),
                        ),
                    ] + rest,
                ),
            },
        }
    }
}

/// The bodies of `count` elements of `stride` bytes each, which stand one
/// after the other in `bytes`.
pub open spec fn spec_strides(bytes: Seq<u8>, stride: int, count: int) -> Seq<Seq<u8>> {
    Seq::new(count as nat, |i: int| bytes.subrange(i * stride, i * stride + stride))
}

/// The elements whose size and type stand at the front of `bytes`, and
/// whose bodies follow. The bodies must fill the rest of the bytes; of
/// elements without a body there is none.
pub open spec fn spec_elements(order: ByteOrder, bytes: Seq<u8>) -> Result<
    ElementsView,
    DeserializeError,
> {
    if bytes.len() < 8 {
        Err(DeserializeError::SizeMismatch)
    } else {
        let child_size = spec_u32_from_bytes(order, bytes);
        let child_type = spec_u32_from_bytes(order, bytes.skip(4));
        let rest = bytes.len() - 8;
        if child_size == 0 {
            if rest != 0 {
                Err(DeserializeError::SizeMismatch)
            } else {
                Ok(ElementsView { child_size, child_type, bodies: Seq::empty() })
            }
        } else if rest % (child_size as int) != 0 {
            Err(DeserializeError::SizeMismatch)
        } else {
            Ok(
                ElementsView {
                    child_size,
                    child_type,
                    bodies: spec_strides(
                        bytes.skip(8),
                        child_size as int,
                        rest / (child_size as int),
                    ),
                },
            )
        }
    }
}

/// The views of pods.
pub open spec fn spec_pod_views(pods: Seq<Pod>) -> Seq<PodView> {
    Seq::new(pods.len(), |i: int| pods[i]@)
}

/// The result of reading children, in the model.
pub open spec fn spec_children_read(r: Result<Vec<Pod>, DeserializeError>) -> Result<
    Seq<PodView>,
    DeserializeError,
> {
    match r {
        Ok(pods) => Ok(spec_pod_views(pods@)),
        Err(e) => Err(e),
    }
}

/// The views of entries.
pub open spec fn spec_entry_views(entries: Seq<(u32, u32, Pod)>) -> Seq<(u32, u32, PodView)> {
    Seq::new(entries.len(), |i: int| (entries[i].0, entries[i].1, entries[i].2@))
}

/// The result of reading entries, in the model.
pub open spec fn spec_entries_read(r: Result<Vec<(u32, u32, Pod)>, DeserializeError>) -> Result<
    Seq<(u32, u32, PodView)>,
    DeserializeError,
> {
    match r {
        Ok(entries) => Ok(spec_entry_views(entries@)),
        Err(e) => Err(e),
    }
}

/// The result of reading elements, in the model.
pub open spec fn spec_elements_read(r: Result<Elements, DeserializeError>) -> Result<
    ElementsView,
    DeserializeError,
> {
    match r {
        Ok(elements) => Ok(elements@),
        Err(e) => Err(e),
    }
}

/// The pods that stand one after the other in `input[start..end]` and fill
/// it, as views into `input`.
pub fn children<'a>(order: ByteOrder, input: &'a [u8], start: usize, end: usize) -> (r: Result<
    Vec<Pod<'a>>,
    DeserializeError,
>)
    requires
        start <= end <= input@.len(),
    ensures
        spec_children_read(r) == spec_children(order, input@.subrange(start as int, end as int)),
{
    let ghost whole = input@.subrange(start as int, end as int);
    let mut out: Vec<Pod<'a>> = Vec::new();
    let mut pos: usize = start;
    proof {
        assert(spec_pod_views(out@) =~= Seq::empty());
        match spec_children(order, whole) {
            Ok(rest) => {
                assert(spec_pod_views(out@) + rest =~= rest);
            },
            Err(_) => {},
        }
    }
    while pos < end
        invariant
            start <= pos <= end <= input@.len(),
            whole == input@.subrange(start as int, end as int),
            match spec_children(order, input@.subrange(pos as int, end as int)) {
                Ok(rest) => spec_children(order, whole) == Ok::<Seq<PodView>, DeserializeError>(
                    spec_pod_views(out@) + rest,
                ),
                Err(e) => spec_children(order, whole) == Err::<Seq<PodView>, DeserializeError>(e),
            },
        decreases end - pos,
    {
        let ghost here = input@.subrange(pos as int, end as int);
        let ghost before = out@;
        let window = slice_subrange(input, pos, end);
        let (type_, size, total) = match pod_bounds(order, input, pos, end) {
            Ok(bounds) => bounds,
            Err(e) => {
                return Err(e);
            },
        };
        let pod = Pod::from_bytes_with_order(order, window).unwrap();
        proof {
            assert(here.skip(total as int) =~= input@.subrange(pos + total, end as int));
        }
        out.push(pod);
        pos = pos + total;
        proof {
            match spec_children(order, input@.subrange(pos as int, end as int)) {
                Ok(rest) => {
                    assert(spec_pod_views(before) + (seq![pod@] + rest) =~= spec_pod_views(out@)
                        + rest);
                },
                Err(_) => {},
            }
        }
    }
    proof {
        assert(spec_pod_views(out@) + Seq::<PodView>::empty() =~= spec_pod_views(out@));
    }
    Ok(out)
}

/// The entries that stand one after the other in `input[start..end]` and
/// fill it: for each, two integers, and a pod as a view into `input`.
pub fn entries<'a>(order: ByteOrder, input: &'a [u8], start: usize, end: usize) -> (r: Result<
    Vec<(u32, u32, Pod<'a>)>,
    DeserializeError,
>)
    requires
        start <= end <= input@.len(),
    ensures
        spec_entries_read(r) == spec_entries(order, input@.subrange(start as int, end as int)),
{
    let ghost whole = input@.subrange(start as int, end as int);
    let mut out: Vec<(u32, u32, Pod<'a>)> = Vec::new();
    let mut pos: usize = start;
    proof {
        assert(spec_entry_views(out@) =~= Seq::empty());
        match spec_entries(order, whole) {
            Ok(rest) => {
                assert(spec_entry_views(out@) + rest =~= rest);
            },
            Err(_) => {},
        }
    }
    while pos < end
        invariant
            start <= pos <= end <= input@.len(),
            whole == input@.subrange(start as int, end as int),
            match spec_entries(order, input@.subrange(pos as int, end as int)) {
                Ok(rest) => spec_entries(order, whole) == Ok::<
                    Seq<(u32, u32, PodView)>,
                    DeserializeError,
                >(spec_entry_views(out@) + rest),
                Err(e) => spec_entries(order, whole) == Err::<
                    Seq<(u32, u32, PodView)>,
                    DeserializeError,
                >(e),
            },
        decreases end - pos,
    {
        let ghost here = input@.subrange(pos as int, end as int);
        let ghost before = out@;
        if end - pos < 8 {
            return Err(DeserializeError::Truncated);
        }
        let first = read_u32(order, input, pos);
        let second = read_u32(order, input, pos + 4);
        proof {
            lemma_u32_same(order, input@.subrange(pos as int, pos + 4), here);
            lemma_u32_same(order, input@.subrange(pos + 4, pos + 8), here.skip(4));
            assert(here.skip(8) =~= input@.subrange(pos + 8, end as int));
        }
        let window = slice_subrange(input, pos + 8, end);
        let (type_, size, total) = match pod_bounds(order, input, pos + 8, end) {
            Ok(bounds) => bounds,
            Err(e) => {
                return Err(e);
            },
        };
        let pod = Pod::from_bytes_with_order(order, window).unwrap();
        proof {
            assert(here.skip(8 + total) =~= input@.subrange(pos + 8 + total, end as int));
        }
        out.push((first, second, pod));
        pos = pos + 8 + total;
        proof {
            match spec_entries(order, input@.subrange(pos as int, end as int)) {
                Ok(rest) => {
                    assert(spec_entry_views(before) + (seq![(first, second, pod@)] + rest)
                        =~= spec_entry_views(out@) + rest);
                },
                Err(_) => {},
            }
        }
    }
    proof {
        assert(spec_entry_views(out@) + Seq::<(u32, u32, PodView)>::empty() =~= spec_entry_views(
            out@,
        ));
    }
    Ok(out)
}

/// The elements whose size and type stand at the front of
/// `input[start..end]`, and whose bodies follow, as views into `input`.
pub fn elements<'a>(order: ByteOrder, input: &'a [u8], start: usize, end: usize) -> (r: Result<
    Elements<'a>,
    DeserializeError,
>)
    requires
        start <= end <= input@.len(),
    ensures
        spec_elements_read(r) == spec_elements(order, input@.subrange(start as int, end as int)),
{
    let ghost bytes = input@.subrange(start as int, end as int);
    let len = input.len();
    if end - start < 8 {
        return Err(DeserializeError::SizeMismatch);
    }
    let child_size = read_u32(order, input, start);
    let child_type = read_u32(order, input, start + 4);
    proof {
        lemma_u32_same(order, input@.subrange(start as int, start + 4), bytes);
        lemma_u32_same(order, input@.subrange(start + 4, start + 8), bytes.skip(4));
    }
    let rest = end - start - 8;
    let mut bodies: Vec<&'a [u8]> = Vec::new();
    if child_size == 0 {
        if rest != 0 {
            return Err(DeserializeError::SizeMismatch);
        }
        let found = Elements { child_size, child_type, bodies };
        assert(found@.bodies =~= Seq::empty());
        return Ok(found);
    }
    let stride = child_size as usize;
    if rest % stride != 0 {
        return Err(DeserializeError::SizeMismatch);
    }
    let count = rest / stride;
    let ghost wanted = spec_strides(bytes.skip(8), stride as int, count as int);
    proof {
        crate::arith::lemma_exact_division(rest as int, stride as int);
    }
    let mut i: usize = 0;
    let mut at: usize = start + 8;
    while i < count
        invariant
            i <= count,
            stride > 0,
            count * stride == rest,
            start + 8 + rest == end,
            end <= input@.len() <= usize::MAX,
            at == start + 8 + i * stride,
            bytes == input@.subrange(start as int, end as int),
            wanted == spec_strides(bytes.skip(8), stride as int, count as int),
            bodies@.len() == i,
            forall|j: int| 0 <= j < i ==> (#[trigger] bodies@[j])@ == wanted[j],
        decreases count - i,
    {
        proof {
            crate::arith::lemma_products(i as int, 0, stride as int);
            crate::arith::lemma_products(i + 1, count as int, stride as int);
        }
        let body = slice_subrange(input, at, at + stride);
        proof {
            assert(body@ =~= bytes.skip(8).subrange(i * stride, i * stride + stride));
        }
        bodies.push(body);
        at = at + stride;
        i += 1;
    }
    let found = Elements { child_size, child_type, bodies };
    assert(found@.bodies =~= wanted);
    Ok(found)
}

impl<'a> Pod<'a> {
    /// The fields of a struct, as pods in the bytes of the struct.
    pub fn fields(&self) -> (r: Result<Vec<Pod<'a>>, DeserializeError>)
        ensures
            self@.type_ != SPA_TYPE_STRUCT ==> r == Err::<Vec<Pod>, DeserializeError>(
                DeserializeError::TypeMismatch,
            ),
            self@.type_ == SPA_TYPE_STRUCT ==> spec_children_read(r) == spec_children(
                self@.order,
                self@.body,
            ),
    {
        if !self.is_struct() {
            return Err(DeserializeError::TypeMismatch);
        }
        let body = self.body();
        let len = body.len();
        proof {
            assert(body@.subrange(0, len as int) =~= body@);
        }
        children(self.order(), body, 0, len)
    }

    /// The type, the id and the properties of an object, the values of the
    /// properties as pods in the bytes of the object.
    pub fn properties(&self) -> (r: Result<(u32, u32, Vec<PropertyRef<'a>>), DeserializeError>)
        ensures
            !(self@.type_ == SPA_TYPE_OBJECT && self@.body.len() >= 8) ==> r == Err::<
                (u32, u32, Vec<PropertyRef>),
                DeserializeError,
            >(DeserializeError::TypeMismatch),
            self@.type_ == SPA_TYPE_OBJECT && self@.body.len() >= 8 ==> match spec_entries(
                self@.order,
                self@.body.skip(8),
            ) {
                Err(e) => r == Err::<(u32, u32, Vec<PropertyRef>), DeserializeError>(e),
                Ok(found) => r is Ok && r->Ok_0.0 == spec_u32_from_bytes(self@.order, self@.body)
                    && r->Ok_0.1 == spec_u32_from_bytes(self@.order, self@.body.skip(4))
                    && r->Ok_0.2@.len() == found.len() && forall|i: int|
                    0 <= i < found.len() ==> (#[trigger] r->Ok_0.2@[i])@ == (PropertyRefView {
                        key: found[i].0,
                        flags: found[i].1,
                        value: found[i].2,
                    }),
            },
    {
        if !self.is_object() {
            return Err(DeserializeError::TypeMismatch);
        }
        let body = self.body();
        let len = body.len();
        let type_ = read_u32(self.order(), body, 0);
        let id = read_u32(self.order(), body, 4);
        proof {
            lemma_u32_same(self@.order, body@.subrange(0, 4), body@);
            lemma_u32_same(self@.order, body@.subrange(4, 8), body@.skip(4));
            assert(body@.subrange(8, len as int) =~= body@.skip(8));
        }
        let found = match entries(self.order(), body, 8, len) {
            Ok(found) => found,
            Err(e) => {
                return Err(e);
            },
        };
        let mut out: Vec<PropertyRef<'a>> = Vec::new();
        let mut i: usize = 0;
        while i < found.len()
            invariant
                i <= found@.len(),
                out@.len() == i,
                forall|j: int|
                    0 <= j < i ==> (#[trigger] out@[j])@ == (PropertyRefView {
                        key: found@[j].0,
                        flags: found@[j].1,
                        value: found@[j].2@,
                    }),
            decreases found@.len() - i,
        {
            let entry = &found[i];
            out.push(PropertyRef { key: entry.0, flags: entry.1, value: entry.2 });
            i += 1;
        }
        Ok((type_, id, out))
    }

    /// The unit and the controls of a sequence, in the order in which they
    /// stand, the values of the controls as pods in the bytes of the
    /// sequence.
    pub fn controls(&self) -> (r: Result<(u32, Vec<ControlRef<'a>>), DeserializeError>)
        ensures
            !(self@.type_ == SPA_TYPE_SEQUENCE && self@.body.len() >= 8) ==> r == Err::<
                (u32, Vec<ControlRef>),
                DeserializeError,
            >(DeserializeError::TypeMismatch),
            self@.type_ == SPA_TYPE_SEQUENCE && self@.body.len() >= 8 ==> match spec_entries(
                self@.order,
                self@.body.skip(8),
            ) {
                Err(e) => r == Err::<(u32, Vec<ControlRef>), DeserializeError>(e),
                Ok(found) => r is Ok && r->Ok_0.0 == spec_u32_from_bytes(self@.order, self@.body)
                    && r->Ok_0.1@.len() == found.len() && forall|i: int|
                    0 <= i < found.len() ==> (#[trigger] r->Ok_0.1@[i])@ == (ControlRefView {
                        offset: found[i].0,
                        type_: found[i].1,
                        value: found[i].2,
                    }),
            },
    {
        if !self.is_sequence() {
            return Err(DeserializeError::TypeMismatch);
        }
        let body = self.body();
        let len = body.len();
        let unit = read_u32(self.order(), body, 0);
        proof {
            lemma_u32_same(self@.order, body@.subrange(0, 4), body@);
            assert(body@.subrange(8, len as int) =~= body@.skip(8));
        }
        let found = match entries(self.order(), body, 8, len) {
            Ok(found) => found,
            Err(e) => {
                return Err(e);
            },
        };
        let mut out: Vec<ControlRef<'a>> = Vec::new();
        let mut i: usize = 0;
        while i < found.len()
            invariant
                i <= found@.len(),
                out@.len() == i,
                forall|j: int|
                    0 <= j < i ==> (#[trigger] out@[j])@ == (ControlRefView {
                        offset: found@[j].0,
                        type_: found@[j].1,
                        value: found@[j].2@,
                    }),
            decreases found@.len() - i,
        {
            let entry = &found[i];
            out.push(ControlRef { offset: entry.0, type_: entry.1, value: entry.2 });
            i += 1;
        }
        Ok((unit, out))
    }

    /// The elements of an array: their size, their type, and their bodies in
    /// the bytes of the array.
    pub fn elements(&self) -> (r: Result<Elements<'a>, DeserializeError>)
        ensures
            self@.type_ != SPA_TYPE_ARRAY ==> r == Err::<Elements, DeserializeError>(
                DeserializeError::TypeMismatch,
            ),
            self@.type_ == SPA_TYPE_ARRAY ==> spec_elements_read(r) == spec_elements(
                self@.order,
                self@.body,
            ),
    {
        if self.type_().as_raw() != SPA_TYPE_ARRAY {
            return Err(DeserializeError::TypeMismatch);
        }
        let body = self.body();
        let len = body.len();
        proof {
            assert(body@.subrange(0, len as int) =~= body@);
        }
        elements(self.order(), body, 0, len)
    }

    /// The sort and the flags of a choice, and its values: their size,
    /// their type, and their bodies in the bytes of the choice. Which of
    /// the values is the default, the minimum and so on depends on the sort.
    pub fn choice_values(&self) -> (r: Result<(u32, u32, Elements<'a>), DeserializeError>)
        ensures
            self@.type_ != SPA_TYPE_CHOICE ==> r == Err::<(u32, u32, Elements), DeserializeError>(
                DeserializeError::TypeMismatch,
            ),
            self@.type_ == SPA_TYPE_CHOICE && self@.body.len() < 16 ==> r == Err::<
                (u32, u32, Elements),
                DeserializeError,
            >(DeserializeError::SizeMismatch),
            self@.type_ == SPA_TYPE_CHOICE && self@.body.len() >= 16 ==> match spec_elements(
                self@.order,
                self@.body.skip(8),
            ) {
                Err(e) => r == Err::<(u32, u32, Elements), DeserializeError>(e),
                Ok(found) => r is Ok && r->Ok_0.0 == spec_u32_from_bytes(self@.order, self@.body)
                    && r->Ok_0.1 == spec_u32_from_bytes(self@.order, self@.body.skip(4))
                    && r->Ok_0.2@ == found,
            },
    {
        if self.type_().as_raw() != SPA_TYPE_CHOICE {
            return Err(DeserializeError::TypeMismatch);
        }
        let body = self.body();
        let len = body.len();
        if len < 16 {
            return Err(DeserializeError::SizeMismatch);
        }
        let sort = read_u32(self.order(), body, 0);
        let flags = read_u32(self.order(), body, 4);
        proof {
            lemma_u32_same(self@.order, body@.subrange(0, 4), body@);
            lemma_u32_same(self@.order, body@.subrange(4, 8), body@.skip(4));
            assert(body@.subrange(8, len as int) =~= body@.skip(8));
        }
        match elements(self.order(), body, 8, len) {
            Ok(found) => Ok((sort, flags, found)),
            Err(e) => Err(e),
        }
    }
}

/// The reader and the deserializer agree: where the bytes of a struct hold
/// values, they hold as many children, and each child holds the value that
/// stands at its place.
pub proof fn lemma_children_hold_values(order: ByteOrder, bytes: Seq<u8>)
    requires
        super::model::spec_parse_all(order, bytes) is Ok,
    ensures
        ({
            let values = super::model::spec_parse_all(order, bytes)->Ok_0;
            let pods = spec_children(order, bytes);
            &&& pods is Ok
            &&& pods->Ok_0.len() == values.len()
            &&& forall|i: int|
                0 <= i < values.len() ==> super::model::spec_parse_body(
                    order,
                    (#[trigger] pods->Ok_0[i]).type_,
                    pods->Ok_0[i].body,
                ) == Ok::<super::model::ValueView, DeserializeError>(values[i])
        }),
    decreases bytes.len(),
{
    if bytes.len() > 0 {
        let bounds = spec_bounds(order, bytes)->Ok_0;
        let rest = bytes.skip(bounds.total);
        let first = super::model::spec_parse_body(
            order,
            bounds.type_,
            bytes.subrange(8, 8 + bounds.size),
        )->Ok_0;
        let others = super::model::spec_parse_all(order, rest)->Ok_0;
        assert(super::model::spec_parse_all(order, bytes) == Ok::<
            Seq<super::model::ValueView>,
            DeserializeError,
        >(seq![first] + others));
        lemma_children_hold_values(order, rest);
        let pods = spec_children(order, rest)->Ok_0;
        assert(spec_children(order, bytes) == Ok::<Seq<PodView>, DeserializeError>(
            seq![spec_front(order, bytes)] + pods,
        ));
        let all = seq![spec_front(order, bytes)] + pods;
        let values = seq![first] + others;
        assert forall|i: int| 0 <= i < values.len() implies super::model::spec_parse_body(
            order,
            (#[trigger] all[i]).type_,
            all[i].body,
        ) == Ok::<super::model::ValueView, DeserializeError>(values[i]) by {
            if i > 0 {
                assert(all[i] == pods[i - 1]);
                assert(values[i] == others[i - 1]);
            }
        }
    }
}

} // verus!
