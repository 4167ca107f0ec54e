//! The tree of values that a pod can hold.

use vstd::prelude::*;

use super::canonical::CanonicalFixedSizedPod;
use super::model::{ChoiceView, Fixed, Kind, PropertyView, ValueView};
use crate::utils::{spec_fixed_seq, Choice, ChoiceEnum, Double, Fd, Float, Fraction, Id, Rectangle};
use crate::utils::flags::PropertyFlags;

verus! {

/// A typed pod value.
#[derive(Debug, PartialEq)]
pub enum Value {
    /// No value or a null pointer.
    Null,
    /// A boolean value.
    Bool(bool),
    /// An enumerated value.
    Id(Id),
    /// A 32 bits integer.
    Int(i32),
    /// A 64 bits integer.
    Long(i64),
    /// A 32 bits floating point number.
    Float(Float),
    /// A 64 bits floating point number.
    Double(Double),
    /// A string.
    String(String),
    /// A byte array.
    Bytes(Vec<u8>),
    /// A rectangle with width and height.
    Rectangle(Rectangle),
    /// A fraction with numerator and denominator.
    Fraction(Fraction),
    /// A file descriptor.
    Fd(Fd),
    /// An array of values of one kind.
    ValueArray(ValueArray),
    /// A collection of values of any type.
    Struct(Vec<Value>),
    /// An object.
    Object(Object),
    /// A choice.
    Choice(ChoiceValue),
    /// A pointer: the type of what it points to, and its address. The
    /// address only means something in the process that wrote it.
    Pointer(u32, u64),
}

/// An array of values of one kind.
#[derive(Debug, Clone, PartialEq)]
pub enum ValueArray {
    /// An array of none.
    Null(Vec<()>),
    /// An array of booleans.
    Bool(Vec<bool>),
    /// An array of Id.
    Id(Vec<Id>),
    /// An array of 32 bits integers.
    Int(Vec<i32>),
    /// An array of 64 bits integers.
    Long(Vec<i64>),
    /// An array of 32 bits floating point numbers.
    Float(Vec<Float>),
    /// An array of 64 bits floating point numbers.
    Double(Vec<Double>),
    /// An array of Rectangle.
    Rectangle(Vec<Rectangle>),
    /// An array of Fraction.
    Fraction(Vec<Fraction>),
    /// An array of Fd.
    Fd(Vec<Fd>),
}

/// A typed choice.
#[derive(Debug, Clone, PartialEq)]
pub enum ChoiceValue {
    /// Choice on boolean values.
    Bool(Choice<bool>),
    /// Choice on 32 bits integer values.
    Int(Choice<i32>),
    /// Choice on 64 bits integer values.
    Long(Choice<i64>),
    /// Choice on 32 bits floating point values.
    Float(Choice<Float>),
    /// Choice on 64 bits floating point values.
    Double(Choice<Double>),
    /// Choice on id values.
    Id(Choice<Id>),
    /// Choice on rectangle values.
    Rectangle(Choice<Rectangle>),
    /// Choice on fraction values.
    Fraction(Choice<Fraction>),
    /// Choice on fd values.
    Fd(Choice<Fd>),
}

/// An object from a pod.
#[derive(Debug, PartialEq)]
pub struct Object {
    /// The object type.
    pub type_: u32,
    /// The object id.
    pub id: u32,
    /// The object properties.
    pub properties: Vec<Property>,
}

/// An object property.
#[derive(Debug, PartialEq)]
pub struct Property {
    /// Key of the property; the list of valid keys depends on the object type.
    pub key: u32,
    /// Flags for the property.
    pub flags: PropertyFlags,
    /// Value of the property.
    pub value: Value,
}

impl View for ValueArray {
    type V = (Kind, Seq<Fixed>);

    open spec fn view(&self) -> (Kind, Seq<Fixed>) {
        match self {
            ValueArray::Null(elements) => (Kind::Null, spec_fixed_seq(elements@)),
            ValueArray::Bool(elements) => (Kind::Bool, spec_fixed_seq(elements@)),
            ValueArray::Id(elements) => (Kind::Id, spec_fixed_seq(elements@)),
            ValueArray::Int(elements) => (Kind::Int, spec_fixed_seq(elements@)),
            ValueArray::Long(elements) => (Kind::Long, spec_fixed_seq(elements@)),
            ValueArray::Float(elements) => (Kind::Float, spec_fixed_seq(elements@)),
            ValueArray::Double(elements) => (Kind::Double, spec_fixed_seq(elements@)),
            ValueArray::Rectangle(elements) => (Kind::Rectangle, spec_fixed_seq(elements@)),
            ValueArray::Fraction(elements) => (Kind::Fraction, spec_fixed_seq(elements@)),
            ValueArray::Fd(elements) => (Kind::Fd, spec_fixed_seq(elements@)),
        }
    }
}

impl View for ChoiceValue {
    type V = ChoiceView;

    open spec fn view(&self) -> ChoiceView {
        match self {
            ChoiceValue::Bool(choice) => choice@,
            ChoiceValue::Int(choice) => choice@,
            ChoiceValue::Long(choice) => choice@,
            ChoiceValue::Float(choice) => choice@,
            ChoiceValue::Double(choice) => choice@,
            ChoiceValue::Id(choice) => choice@,
            ChoiceValue::Rectangle(choice) => choice@,
            ChoiceValue::Fraction(choice) => choice@,
            ChoiceValue::Fd(choice) => choice@,
        }
    }
}

impl View for Value {
    type V = ValueView;

    open spec fn view(&self) -> ValueView
        decreases self, 0nat,
    {
        match self {
            Value::Null => ValueView::Fixed(Fixed::Null),
            Value::Bool(value) => ValueView::Fixed(Fixed::Bool(*value)),
            Value::Id(value) => ValueView::Fixed(Fixed::Id(value.0)),
            Value::Int(value) => ValueView::Fixed(Fixed::Int(*value)),
            Value::Long(value) => ValueView::Fixed(Fixed::Long(*value)),
            Value::Float(value) => ValueView::Fixed(Fixed::Float(value.0)),
            Value::Double(value) => ValueView::Fixed(Fixed::Double(value.0)),
            Value::String(text) => ValueView::String(text@),
            Value::Bytes(bytes) => ValueView::Bytes(bytes@),
            Value::Rectangle(value) => ValueView::Fixed(
                Fixed::Rectangle(value.width, value.height),
            ),
            Value::Fraction(value) => ValueView::Fixed(Fixed::Fraction(value.num, value.denom)),
            Value::Fd(value) => ValueView::Fixed(Fixed::Fd(value.0)),
            Value::ValueArray(array) => ValueView::Array(array@.0, array@.1),
            Value::Struct(fields) => ValueView::Struct(spec_views(fields@)),
            Value::Object(object) => ValueView::Object(
                object.type_,
                object.id,
                spec_property_views(object.properties@),
            ),
            Value::Choice(choice) => ValueView::Choice(choice@),
            Value::Pointer(type_, address) => ValueView::Pointer(*type_, *address),
        }
    }
}

/// The views of the given values.
pub open spec fn spec_views(values: Seq<Value>) -> Seq<ValueView>
    decreases values, 0nat,
{
    if values.len() == 0 {
        Seq::empty()
    } else {
        spec_views(values.drop_last()).push(values.last()@)
    }
}

/// The views of the given properties.
pub open spec fn spec_property_views(properties: Seq<Property>) -> Seq<PropertyView>
    decreases properties, 0nat,
{
    if properties.len() == 0 {
        Seq::empty()
    } else {
        spec_property_views(properties.drop_last()).push(properties.last()@)
    }
}

impl View for Property {
    type V = PropertyView;

    open spec fn view(&self) -> PropertyView
        decreases self, 1nat,
    {
        PropertyView { key: self.key, flags: self.flags.bits(), value: self.value@ }
    }
}

impl Property {
    /// A property without flags.
    pub fn new(key: u32, value: Value) -> (r: Self)
        ensures
            r.key == key,
            r.value == value,
            r.flags.bits() == 0,
    {
        Self { key, value, flags: PropertyFlags::empty() }
    }
}

/// A copy of each of the given values.
fn duplicate_all(values: &Vec<Value>) -> (r: Vec<Value>)
    ensures
        spec_views(r@) == spec_views(values@),
    decreases values, 0nat,
{
    let mut out: Vec<Value> = Vec::new();
    let mut i: usize = 0;
    proof {
        assert(values@.take(0) =~= Seq::<Value>::empty());
        assert(spec_views(out@) =~= spec_views(values@.take(0)));
    }
    while i < values.len()
        invariant
            i <= values@.len(),
            spec_views(out@) == spec_views(values@.take(i as int)),
        decreases values@.len() - i,
    {
        let ghost before = out@;
        let copy = values[i].duplicate();
        out.push(copy);
        proof {
            assert(out@.drop_last() =~= before);
            assert(values@.take(i + 1).drop_last() =~= values@.take(i as int));
            assert(spec_views(out@) == spec_views(out@.drop_last()).push(out@.last()@));
            assert(spec_views(values@.take(i + 1)) == spec_views(
                values@.take(i + 1).drop_last(),
            ).push(values@.take(i + 1).last()@));
        }
        i += 1;
    }
    proof {
        assert(values@.take(values@.len() as int) =~= values@);
    }
    out
}

/// A copy of each of the given properties.
fn duplicate_properties(properties: &Vec<Property>) -> (r: Vec<Property>)
    ensures
        spec_property_views(r@) == spec_property_views(properties@),
    decreases properties, 0nat,
{
    let mut out: Vec<Property> = Vec::new();
    let mut i: usize = 0;
    proof {
        assert(properties@.take(0) =~= Seq::<Property>::empty());
        assert(spec_property_views(out@) =~= spec_property_views(properties@.take(0)));
    }
    while i < properties.len()
        invariant
            i <= properties@.len(),
            spec_property_views(out@) == spec_property_views(properties@.take(i as int)),
        decreases properties@.len() - i,
    {
        let ghost before = out@;
        let property = &properties[i];
        let copy = Property {
            key: property.key,
            flags: property.flags,
            value: property.value.duplicate(),
        };
        out.push(copy);
        proof {
            assert(out@.drop_last() =~= before);
            assert(properties@.take(i + 1).drop_last() =~= properties@.take(i as int));
            assert(spec_property_views(out@) == spec_property_views(out@.drop_last()).push(
                out@.last()@,
            ));
            assert(spec_property_views(properties@.take(i + 1)) == spec_property_views(
                properties@.take(i + 1).drop_last(),
            ).push(properties@.take(i + 1).last()@));
        }
        i += 1;
    }
    proof {
        assert(properties@.take(properties@.len() as int) =~= properties@);
    }
    out
}

/// A copy of the given values of one type.
fn duplicate_elements<T: Copy>(elements: &Vec<T>) -> (r: Vec<T>)
    ensures
        r@ == elements@,
{
    let mut out: Vec<T> = Vec::new();
    let mut i: usize = 0;
    while i < elements.len()
        invariant
            i <= elements@.len(),
            out@ == elements@.take(i as int),
        decreases elements@.len() - i,
    {
        out.push(elements[i]);
        assert(out@ =~= elements@.take(i + 1));
        i += 1;
    }
    assert(elements@.take(elements@.len() as int) =~= elements@);
    out
}

/// A copy of a choice over values of one type.
fn duplicate_choice<T: CanonicalFixedSizedPod + Copy>(choice: &Choice<T>) -> (r: Choice<T>)
    ensures
        r@ == choice@,
{
    let alternatives = match &choice.1 {
        ChoiceEnum::NoChoice(value) => ChoiceEnum::NoChoice(*value),
        ChoiceEnum::Range { default, min, max } => ChoiceEnum::Range {
            default: *default,
            min: *min,
            max: *max,
        },
        ChoiceEnum::Step { default, min, max, step } => ChoiceEnum::Step {
            default: *default,
            min: *min,
            max: *max,
            step: *step,
        },
        ChoiceEnum::Enum { default, alternatives } => ChoiceEnum::Enum {
            default: *default,
            alternatives: duplicate_elements(alternatives),
        },
        ChoiceEnum::Flags { default, flags } => ChoiceEnum::Flags {
            default: *default,
            flags: duplicate_elements(flags),
        },
    };
    Choice(choice.0, alternatives)
}

impl Value {
    /// A copy of this value and of all that it holds.
    pub fn duplicate(&self) -> (r: Value)
        ensures
            r@ == self@,
        decreases self, 0nat,
    {
        match self {
            Value::Null => Value::Null,
            Value::Bool(value) => Value::Bool(*value),
            Value::Id(value) => Value::Id(*value),
            Value::Int(value) => Value::Int(*value),
            Value::Long(value) => Value::Long(*value),
            Value::Float(value) => Value::Float(*value),
            Value::Double(value) => Value::Double(*value),
            Value::String(text) => Value::String(text.clone()),
            Value::Bytes(bytes) => Value::Bytes(duplicate_elements(bytes)),
            Value::Rectangle(value) => Value::Rectangle(*value),
            Value::Fraction(value) => Value::Fraction(*value),
            Value::Fd(value) => Value::Fd(*value),
            Value::ValueArray(array) => Value::ValueArray(
                match array {
                    ValueArray::Null(elements) => {
                        let mut copy: Vec<()> = Vec::new();
                        let mut i: usize = 0;
                        while i < elements.len()
                            invariant
                                i <= elements@.len(),
                                copy@.len() == i,
                            decreases elements@.len() - i,
                        {
                            copy.push(());
                            i += 1;
                        }
                        assert(spec_fixed_seq(copy@) =~= spec_fixed_seq(elements@));
                        ValueArray::Null(copy)
                    },
                    ValueArray::Bool(elements) => ValueArray::Bool(duplicate_elements(elements)),
                    ValueArray::Id(elements) => ValueArray::Id(duplicate_elements(elements)),
                    ValueArray::Int(elements) => ValueArray::Int(duplicate_elements(elements)),
                    ValueArray::Long(elements) => ValueArray::Long(duplicate_elements(elements)),
                    ValueArray::Float(elements) => ValueArray::Float(duplicate_elements(elements)),
                    ValueArray::Double(elements) => ValueArray::Double(
                        duplicate_elements(elements),
                    ),
                    ValueArray::Rectangle(elements) => ValueArray::Rectangle(
                        duplicate_elements(elements),
                    ),
                    ValueArray::Fraction(elements) => ValueArray::Fraction(
                        duplicate_elements(elements),
                    ),
                    ValueArray::Fd(elements) => ValueArray::Fd(duplicate_elements(elements)),
                },
            ),
            Value::Struct(fields) => Value::Struct(duplicate_all(fields)),
            Value::Object(object) => Value::Object(
                Object {
                    type_: object.type_,
                    id: object.id,
                    properties: duplicate_properties(&object.properties),
                },
            ),
            Value::Choice(choice) => Value::Choice(
                match choice {
                    ChoiceValue::Bool(inner) => ChoiceValue::Bool(duplicate_choice(inner)),
                    ChoiceValue::Int(inner) => ChoiceValue::Int(duplicate_choice(inner)),
                    ChoiceValue::Long(inner) => ChoiceValue::Long(duplicate_choice(inner)),
                    ChoiceValue::Float(inner) => ChoiceValue::Float(duplicate_choice(inner)),
                    ChoiceValue::Double(inner) => ChoiceValue::Double(duplicate_choice(inner)),
                    ChoiceValue::Id(inner) => ChoiceValue::Id(duplicate_choice(inner)),
                    ChoiceValue::Rectangle(inner) => ChoiceValue::Rectangle(
                        duplicate_choice(inner),
                    ),
                    ChoiceValue::Fraction(inner) => ChoiceValue::Fraction(duplicate_choice(inner)),
                    ChoiceValue::Fd(inner) => ChoiceValue::Fd(duplicate_choice(inner)),
                },
            ),
            Value::Pointer(type_, address) => Value::Pointer(*type_, *address),
        }
    }
}

impl Clone for Value {
    fn clone(&self) -> (r: Self)
        ensures
            r@ == self@,
    {
        self.duplicate()
    }
}

impl Clone for Property {
    fn clone(&self) -> (r: Self)
        ensures
            r@ == self@,
    {
        Property { key: self.key, flags: self.flags, value: self.value.duplicate() }
    }
}

impl Clone for Object {
    fn clone(&self) -> (r: Self)
        ensures
            r.type_ == self.type_,
            r.id == self.id,
            spec_property_views(r.properties@) == spec_property_views(self.properties@),
    {
        Object {
            type_: self.type_,
            id: self.id,
            properties: duplicate_properties(&self.properties),
        }
    }
}

} // verus!
