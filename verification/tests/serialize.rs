use libspa::pod::deserialize::PodDeserializer;
use libspa::pod::model::DeserializeError::{
    self, InvalidChoiceType, InvalidUtf8, MissingChoiceValues, MissingTerminator, SizeMismatch,
    Truncated, UnsupportedType,
};
use libspa::pod::model::SerializeError;
use libspa::pod::serialize::PodSerializer;
use libspa::pod::wire::ByteOrder;
use libspa::pod::{ChoiceValue, Object, Pod, Property, PropertyFlags, Value, ValueArray};
use libspa::utils::{
    Choice, ChoiceEnum, ChoiceFlags, Double, Fd, Float, Fraction, Id, Rectangle,
};

fn join(parts: &[&[u8]]) -> Vec<u8> {
    parts.iter().flat_map(|f| (*f)).copied().collect()
}

fn encode(value: &Value) -> Vec<u8> {
    let (bytes, written) = PodSerializer::serialize(Vec::new(), value).unwrap();
    assert_eq!(bytes.len() as u64, written);
    bytes
}

fn decode(bytes: &[u8]) -> Value {
    let (rest, value) = PodDeserializer::deserialize_any_from(bytes).unwrap();
    assert!(rest.is_empty());
    value
}

fn roundtrip(value: Value) {
    let bytes = encode(&value);
    assert_eq!(bytes.len() % 8, 0);
    let size = u32::from_ne_bytes([bytes[0], bytes[1], bytes[2], bytes[3]]) as usize;
    assert_eq!(bytes.len(), 8 + size + ((8 - size % 8) % 8));
    assert_eq!(decode(&bytes), value);
    for order in [ByteOrder::Little, ByteOrder::Big] {
        let (bytes, _) = PodSerializer::serialize_with_order(order, Vec::new(), &value).unwrap();
        let (rest, back) = PodDeserializer::deserialize_any_with_order(order, &bytes).unwrap();
        assert!(rest.is_empty());
        assert_eq!(back, value);
    }
    for cut in 0..bytes.len() {
        assert_eq!(
            PodDeserializer::deserialize_any_from(&bytes[..cut]).err(),
            Some(DeserializeError::Truncated)
        );
        assert!(Pod::from_bytes(&bytes[..cut]).is_none());
    }
    assert!(Pod::from_bytes(&bytes).is_some());
}

fn format_object() -> Value {
    Value::Object(Object {
        type_: 262147, // a format object
        id: 3,         // the format that is to be enumerated
        properties: vec![
            Property::new(1, Value::Id(Id(1))), // media type: audio
            Property::new(2, Value::Id(Id(1))), // media subtype: raw
        ],
    })
}

#[test]
fn struct_of_one_int_has_the_expected_bytes() {
    let bytes = encode(&Value::Struct(vec![Value::Int(3)]));
    let other = join(&[
        &16u32.to_ne_bytes(), // body has size 16
        &14u32.to_ne_bytes(), // struct type is 14
        &4u32.to_ne_bytes(),  // child body size is 4
        &4u32.to_ne_bytes(),  // Int child type is 4
        &3i32.to_ne_bytes(),  // the integer
        &[0, 0, 0, 0],        // padding
    ]);
    assert_eq!(bytes, other);
}

#[test]
fn empty_struct_is_a_header_alone() {
    let bytes = encode(&Value::Struct(Vec::new()));
    let other = join(&[&0u32.to_ne_bytes(), &14u32.to_ne_bytes()]);
    assert_eq!(bytes, other);
    assert_eq!(decode(&bytes), Value::Struct(Vec::new()));
}

#[test]
fn object_with_properties_makes_the_round_trip() {
    let bytes = encode(&format_object());
    let other = join(&[
        &56u32.to_ne_bytes(),
        &15u32.to_ne_bytes(),
        &262147u32.to_ne_bytes(),
        &3u32.to_ne_bytes(),
        &1u32.to_ne_bytes(),
        &0u32.to_ne_bytes(),
        &4u32.to_ne_bytes(),
        &3u32.to_ne_bytes(),
        &1u32.to_ne_bytes(),
        &[0, 0, 0, 0],
        &2u32.to_ne_bytes(),
        &0u32.to_ne_bytes(),
        &4u32.to_ne_bytes(),
        &3u32.to_ne_bytes(),
        &1u32.to_ne_bytes(),
        &[0, 0, 0, 0],
    ]);
    assert_eq!(bytes, other);
    match decode(&bytes) {
        Value::Object(object) => {
            assert_eq!(object.type_, 262147);
            assert_eq!(object.id, 3);
            assert_eq!(object.properties.len(), 2);
            assert_eq!(object.properties[0].key, 1);
            assert_eq!(object.properties[0].value, Value::Id(Id(1)));
            assert_eq!(object.properties[0].flags, PropertyFlags::empty());
            assert_eq!(object.properties[1].key, 2);
            assert_eq!(object.properties[1].value, Value::Id(Id(1)));
        }
        other => panic!("not an object: {:?}", other),
    }
    roundtrip(format_object());
}

#[test]
fn range_choice_makes_the_round_trip() {
    let choice = Value::Choice(ChoiceValue::Int(Choice(
        ChoiceFlags::empty(),
        ChoiceEnum::Range {
            default: 25,
            min: 0,
            max: 1000,
        },
    )));
    let bytes = encode(&choice);
    let other = join(&[
        &28u32.to_ne_bytes(),
        &19u32.to_ne_bytes(), // choice
        &1u32.to_ne_bytes(),  // range
        &0u32.to_ne_bytes(),  // flags
        &4u32.to_ne_bytes(),  // size of a value
        &4u32.to_ne_bytes(),  // type of a value
        &25i32.to_ne_bytes(),
        &0i32.to_ne_bytes(),
        &1000i32.to_ne_bytes(),
        &[0, 0, 0, 0],
    ]);
    assert_eq!(bytes, other);
    match decode(&bytes) {
        Value::Choice(ChoiceValue::Int(Choice(flags, ChoiceEnum::Range { default, min, max }))) => {
            assert_eq!(flags, ChoiceFlags::empty());
            assert_eq!((default, min, max), (25, 0, 1000));
        }
        other => panic!("not a range over int: {:?}", other),
    }
    roundtrip(choice);
}

#[test]
fn every_fixed_size_kind_makes_the_round_trip() {
    roundtrip(Value::Null);
    roundtrip(Value::Bool(true));
    roundtrip(Value::Bool(false));
    roundtrip(Value::Id(Id(313)));
    roundtrip(Value::Id(Id(u32::MAX)));
    roundtrip(Value::Int(-1));
    roundtrip(Value::Int(i32::MIN));
    roundtrip(Value::Int(i32::MAX));
    roundtrip(Value::Long(-1));
    roundtrip(Value::Long(i64::MIN));
    roundtrip(Value::Long(i64::MAX));
    roundtrip(Value::Float(Float(31.3f32.to_bits())));
    roundtrip(Value::Float(Float(f32::NAN.to_bits())));
    roundtrip(Value::Double(Double(31.3f64.to_bits())));
    roundtrip(Value::Double(Double((-0.0f64).to_bits())));
    roundtrip(Value::Rectangle(Rectangle {
        width: 313,
        height: 131,
    }));
    roundtrip(Value::Fraction(Fraction {
        num: 313,
        denom: 131,
    }));
    roundtrip(Value::Fd(Fd(313)));
    roundtrip(Value::Fd(Fd(-1)));
    roundtrip(Value::Pointer(7, 0xdead_beef_0000_0001));
}

#[test]
fn fixed_size_pods_have_the_expected_bytes() {
    assert_eq!(
        encode(&Value::Null),
        join(&[&0u32.to_ne_bytes(), &1u32.to_ne_bytes()])
    );
    assert_eq!(
        encode(&Value::Bool(true)),
        join(&[
            &4u32.to_ne_bytes(),
            &2u32.to_ne_bytes(),
            &1u32.to_ne_bytes(),
            &[0, 0, 0, 0]
        ])
    );
    assert_eq!(
        encode(&Value::Long(-2)),
        join(&[&8u32.to_ne_bytes(), &5u32.to_ne_bytes(), &(-2i64).to_ne_bytes()])
    );
    assert_eq!(
        encode(&Value::Float(Float(31.3f32.to_bits()))),
        join(&[
            &4u32.to_ne_bytes(),
            &6u32.to_ne_bytes(),
            &31.3f32.to_ne_bytes(),
            &[0, 0, 0, 0]
        ])
    );
    assert_eq!(
        encode(&Value::Double(Double(31.3f64.to_bits()))),
        join(&[&8u32.to_ne_bytes(), &7u32.to_ne_bytes(), &31.3f64.to_ne_bytes()])
    );
    assert_eq!(
        encode(&Value::Rectangle(Rectangle {
            width: 313,
            height: 131
        })),
        join(&[
            &8u32.to_ne_bytes(),
            &10u32.to_ne_bytes(),
            &313u32.to_ne_bytes(),
            &131u32.to_ne_bytes()
        ])
    );
    assert_eq!(
        encode(&Value::Fd(Fd(-1))),
        join(&[&8u32.to_ne_bytes(), &18u32.to_ne_bytes(), &(-1i64).to_ne_bytes()])
    );
    assert_eq!(
        encode(&Value::Pointer(7, 0x0102_0304_0506_0708)),
        join(&[
            &16u32.to_ne_bytes(),
            &17u32.to_ne_bytes(),
            &7u32.to_ne_bytes(),
            &0u32.to_ne_bytes(),
            &0x0102_0304_0506_0708u64.to_ne_bytes()
        ])
    );
}

#[test]
fn integers_stand_in_the_order_that_is_asked_for() {
    let value = Value::Struct(vec![Value::Int(0x0102_0304), Value::Long(-2)]);
    let (little, _) =
        PodSerializer::serialize_with_order(ByteOrder::Little, Vec::new(), &value).unwrap();
    assert_eq!(
        little,
        join(&[
            &32u32.to_le_bytes(),
            &14u32.to_le_bytes(),
            &4u32.to_le_bytes(),
            &4u32.to_le_bytes(),
            &[4, 3, 2, 1],
            &[0, 0, 0, 0],
            &8u32.to_le_bytes(),
            &5u32.to_le_bytes(),
            &[0xfe, 0xff, 0xff, 0xff, 0xff, 0xff, 0xff, 0xff],
        ])
    );
    let (big, _) =
        PodSerializer::serialize_with_order(ByteOrder::Big, Vec::new(), &value).unwrap();
    assert_eq!(
        big,
        join(&[
            &32u32.to_be_bytes(),
            &14u32.to_be_bytes(),
            &4u32.to_be_bytes(),
            &4u32.to_be_bytes(),
            &[1, 2, 3, 4],
            &[0, 0, 0, 0],
            &8u32.to_be_bytes(),
            &5u32.to_be_bytes(),
            &[0xff, 0xff, 0xff, 0xff, 0xff, 0xff, 0xff, 0xfe],
        ])
    );
    assert_eq!(
        PodDeserializer::deserialize_any_with_order(ByteOrder::Big, &big)
            .unwrap()
            .1,
        value
    );
    assert_eq!(
        PodDeserializer::deserialize_any_with_order(ByteOrder::Little, &little)
            .unwrap()
            .1,
        value
    );
    // read in the other order, the size is a huge number
    assert_eq!(
        PodDeserializer::deserialize_any_with_order(ByteOrder::Little, &big).err(),
        Some(DeserializeError::Truncated)
    );
    let native = if 1u16.to_ne_bytes() == 1u16.to_le_bytes() {
        ByteOrder::Little
    } else {
        ByteOrder::Big
    };
    assert_eq!(ByteOrder::native(), native);
}

#[test]
fn strings_and_bytes_make_the_round_trip() {
    roundtrip(Value::String(String::new()));
    roundtrip(Value::String("foo".to_string()));
    roundtrip(Value::String("sevench".to_string()));
    roundtrip(Value::String("eight ch".to_string()));
    roundtrip(Value::String("grüße, мир, 世界".to_string()));
    roundtrip(Value::Bytes(Vec::new()));
    roundtrip(Value::Bytes(vec![3, 1, 3]));
    roundtrip(Value::Bytes(vec![0; 8]));
    roundtrip(Value::Bytes((0..=255).collect()));
    assert_eq!(
        encode(&Value::String("foo".to_string())),
        join(&[&4u32.to_ne_bytes(), &8u32.to_ne_bytes(), b"foo\0", &[0; 4]])
    );
    assert_eq!(
        encode(&Value::String("sevench".to_string())),
        join(&[&8u32.to_ne_bytes(), &8u32.to_ne_bytes(), b"sevench\0"])
    );
    assert_eq!(
        encode(&Value::Bytes(vec![3, 1, 3])),
        join(&[&3u32.to_ne_bytes(), &9u32.to_ne_bytes(), &[3, 1, 3], &[0; 5]])
    );
}

#[test]
fn arrays_make_the_round_trip() {
    roundtrip(Value::ValueArray(ValueArray::Null(Vec::new())));
    roundtrip(Value::ValueArray(ValueArray::Bool(vec![true, false, true])));
    roundtrip(Value::ValueArray(ValueArray::Id(vec![Id(1), Id(2)])));
    roundtrip(Value::ValueArray(ValueArray::Int(vec![1, -2, 3])));
    roundtrip(Value::ValueArray(ValueArray::Int(Vec::new())));
    roundtrip(Value::ValueArray(ValueArray::Long(vec![1, -2, 3])));
    roundtrip(Value::ValueArray(ValueArray::Float(vec![
        Float(1.5f32.to_bits()),
        Float(2.5f32.to_bits()),
    ])));
    roundtrip(Value::ValueArray(ValueArray::Double(vec![Double(
        1.5f64.to_bits(),
    )])));
    roundtrip(Value::ValueArray(ValueArray::Rectangle(vec![
        Rectangle {
            width: 1,
            height: 2,
        },
        Rectangle {
            width: 3,
            height: 4,
        },
    ])));
    roundtrip(Value::ValueArray(ValueArray::Fraction(vec![Fraction {
        num: 1,
        denom: 2,
    }])));
    roundtrip(Value::ValueArray(ValueArray::Fd(vec![Fd(1), Fd(-1)])));
    assert_eq!(
        encode(&Value::ValueArray(ValueArray::Int(vec![1, 2, 3]))),
        join(&[
            &20u32.to_ne_bytes(),
            &13u32.to_ne_bytes(),
            &4u32.to_ne_bytes(),
            &4u32.to_ne_bytes(),
            &1i32.to_ne_bytes(),
            &2i32.to_ne_bytes(),
            &3i32.to_ne_bytes(),
            &[0, 0, 0, 0],
        ])
    );
    assert_eq!(
        encode(&Value::ValueArray(ValueArray::Long(Vec::new()))),
        join(&[
            &8u32.to_ne_bytes(),
            &13u32.to_ne_bytes(),
            &8u32.to_ne_bytes(),
            &5u32.to_ne_bytes(),
        ])
    );
}

#[test]
fn an_array_of_empty_values_loses_its_length() {
    let three = Value::ValueArray(ValueArray::Null(vec![(), (), ()]));
    let bytes = encode(&three);
    assert_eq!(
        bytes,
        join(&[
            &8u32.to_ne_bytes(),
            &13u32.to_ne_bytes(),
            &0u32.to_ne_bytes(),
            &1u32.to_ne_bytes(),
        ])
    );
    assert_eq!(decode(&bytes), Value::ValueArray(ValueArray::Null(Vec::new())));
}

#[test]
fn choices_make_the_round_trip() {
    let flags = ChoiceFlags::from_bits_retain(1);
    roundtrip(Value::Choice(ChoiceValue::Bool(Choice(
        ChoiceFlags::empty(),
        ChoiceEnum::NoChoice(true),
    ))));
    roundtrip(Value::Choice(ChoiceValue::Int(Choice(
        flags,
        ChoiceEnum::Step {
            default: 4,
            min: 0,
            max: 16,
            step: 4,
        },
    ))));
    roundtrip(Value::Choice(ChoiceValue::Long(Choice(
        ChoiceFlags::empty(),
        ChoiceEnum::Enum {
            default: 1,
            alternatives: vec![1, 2, 3],
        },
    ))));
    roundtrip(Value::Choice(ChoiceValue::Long(Choice(
        ChoiceFlags::empty(),
        ChoiceEnum::Enum {
            default: 1,
            alternatives: Vec::new(),
        },
    ))));
    roundtrip(Value::Choice(ChoiceValue::Id(Choice(
        ChoiceFlags::empty(),
        ChoiceEnum::Flags {
            default: Id(1),
            flags: vec![Id(1), Id(2), Id(4)],
        },
    ))));
    roundtrip(Value::Choice(ChoiceValue::Float(Choice(
        ChoiceFlags::empty(),
        ChoiceEnum::Range {
            default: Float(1.0f32.to_bits()),
            min: Float(0.0f32.to_bits()),
            max: Float(2.0f32.to_bits()),
        },
    ))));
    roundtrip(Value::Choice(ChoiceValue::Double(Choice(
        ChoiceFlags::empty(),
        ChoiceEnum::NoChoice(Double(1.0f64.to_bits())),
    ))));
    roundtrip(Value::Choice(ChoiceValue::Rectangle(Choice(
        ChoiceFlags::empty(),
        ChoiceEnum::Range {
            default: Rectangle {
                width: 640,
                height: 480,
            },
            min: Rectangle {
                width: 1,
                height: 1,
            },
            max: Rectangle {
                width: 4096,
                height: 4096,
            },
        },
    ))));
    roundtrip(Value::Choice(ChoiceValue::Fraction(Choice(
        ChoiceFlags::empty(),
        ChoiceEnum::Enum {
            default: Fraction { num: 25, denom: 1 },
            alternatives: vec![Fraction { num: 25, denom: 1 }, Fraction { num: 30, denom: 1 }],
        },
    ))));
    roundtrip(Value::Choice(ChoiceValue::Fd(Choice(
        ChoiceFlags::empty(),
        ChoiceEnum::NoChoice(Fd(3)),
    ))));
    assert_eq!(
        encode(&Value::Choice(ChoiceValue::Long(Choice(
            flags,
            ChoiceEnum::Enum {
                default: 1,
                alternatives: vec![2],
            },
        )))),
        join(&[
            &32u32.to_ne_bytes(),
            &19u32.to_ne_bytes(),
            &3u32.to_ne_bytes(),
            &1u32.to_ne_bytes(),
            &8u32.to_ne_bytes(),
            &5u32.to_ne_bytes(),
            &1i64.to_ne_bytes(),
            &2i64.to_ne_bytes(),
        ])
    );
}

#[test]
fn nested_values_make_the_round_trip() {
    let flags = PropertyFlags::from_bits_retain(1 | 8);
    roundtrip(Value::Struct(vec![
        Value::Struct(vec![
            Value::Float(Float(31.3f32.to_bits())),
            Value::String("foo".to_string()),
        ]),
        Value::Int(3),
        format_object(),
        Value::Object(Object {
            type_: 1,
            id: 2,
            properties: vec![
                Property {
                    key: 9,
                    flags,
                    value: Value::Struct(vec![Value::Null, Value::Bytes(vec![1, 2, 3, 4, 5])]),
                },
                Property {
                    key: 9,
                    flags: PropertyFlags::empty(),
                    value: Value::ValueArray(ValueArray::Int(vec![1, 2, 3])),
                },
            ],
        }),
        Value::Struct(Vec::new()),
        Value::Object(Object {
            type_: 5,
            id: 6,
            properties: Vec::new(),
        }),
    ]));
}

#[test]
fn serializing_writes_over_the_beginning_of_what_is_there() {
    let (bytes, written) = PodSerializer::serialize(vec![0xaa; 20], &Value::Int(3)).unwrap();
    assert_eq!(written, 16);
    assert_eq!(bytes.len(), 20);
    assert_eq!(
        &bytes[..16],
        &join(&[
            &4u32.to_ne_bytes(),
            &4u32.to_ne_bytes(),
            &3i32.to_ne_bytes(),
            &[0, 0, 0, 0]
        ])[..]
    );
    assert_eq!(&bytes[16..], &[0xaa; 4]);
    let (bytes, written) = PodSerializer::serialize(vec![0xaa; 3], &Value::Int(3)).unwrap();
    assert_eq!(written, 16);
    assert_eq!(bytes.len(), 16);
}

#[test]
fn a_string_with_a_zero_byte_has_no_pod() {
    assert_eq!(
        PodSerializer::serialize(Vec::new(), &Value::String("a\0b".to_string())).err(),
        Some(SerializeError::InteriorNul)
    );
    assert_eq!(
        PodSerializer::serialize(
            Vec::new(),
            &Value::Struct(vec![
                Value::Int(1),
                Value::Object(Object {
                    type_: 1,
                    id: 1,
                    properties: vec![Property::new(1, Value::String("\0".to_string()))],
                })
            ])
        )
        .err(),
        Some(SerializeError::InteriorNul)
    );
}

#[test]
fn what_follows_a_pod_is_handed_back() {
    let mut bytes = encode(&Value::Int(3));
    bytes.extend_from_slice(&[1, 2, 3]);
    let (rest, value) = PodDeserializer::deserialize_any_from(&bytes).unwrap();
    assert_eq!(value, Value::Int(3));
    assert_eq!(rest, &[1, 2, 3]);
}

fn pod(type_: u32, body: &[u8]) -> Vec<u8> {
    let mut bytes = join(&[&(body.len() as u32).to_ne_bytes(), &type_.to_ne_bytes(), body]);
    while bytes.len() % 8 != 0 {
        bytes.push(0);
    }
    bytes
}

fn error_of(bytes: &[u8]) -> Option<DeserializeError> {
    PodDeserializer::deserialize_any_from(bytes).err()
}

#[test]
fn bytes_that_are_no_value_are_errors() {
    assert_eq!(error_of(&[]), Some(Truncated));
    assert_eq!(error_of(&[0; 7]), Some(Truncated));
    // a header that asks for more than is there
    assert_eq!(
        error_of(&join(&[&u32::MAX.to_ne_bytes(), &4u32.to_ne_bytes(), &[0; 8]])),
        Some(Truncated)
    );
    // the padding is missing
    assert_eq!(
        error_of(&join(&[&4u32.to_ne_bytes(), &4u32.to_ne_bytes(), &[0; 4]])),
        Some(Truncated)
    );
    // bodies of the wrong size
    assert_eq!(error_of(&pod(1, &[0; 8])), Some(SizeMismatch));
    assert_eq!(error_of(&pod(2, &[])), Some(SizeMismatch));
    assert_eq!(error_of(&pod(4, &[0; 8])), Some(SizeMismatch));
    assert_eq!(error_of(&pod(5, &[0; 4])), Some(SizeMismatch));
    assert_eq!(error_of(&pod(17, &[0; 8])), Some(SizeMismatch));
    assert_eq!(error_of(&pod(8, &[])), Some(SizeMismatch));
    assert_eq!(error_of(&pod(13, &[0; 4])), Some(SizeMismatch));
    assert_eq!(error_of(&pod(15, &[0; 4])), Some(SizeMismatch));
    assert_eq!(error_of(&pod(19, &[0; 8])), Some(SizeMismatch));
    // types that no value has
    assert_eq!(error_of(&pod(0, &[])), Some(UnsupportedType));
    assert_eq!(error_of(&pod(12, &[1])), Some(UnsupportedType));
    assert_eq!(error_of(&pod(16, &[0; 8])), Some(UnsupportedType));
    assert_eq!(error_of(&pod(20, &[])), Some(UnsupportedType));
    assert_eq!(error_of(&pod(0x40000, &[])), Some(UnsupportedType));
    // strings
    assert_eq!(error_of(&pod(8, b"abc")), Some(MissingTerminator));
    assert_eq!(error_of(&pod(8, &[0xff, 0])), Some(InvalidUtf8));
    assert_eq!(error_of(&pod(8, &[0xc3, 0])), Some(InvalidUtf8));
    // arrays
    let array = |size: u32, type_: u32, rest: &[u8]| {
        pod(13, &join(&[&size.to_ne_bytes(), &type_.to_ne_bytes(), rest]))
    };
    assert_eq!(error_of(&array(4, 8, &[])), Some(UnsupportedType));
    assert_eq!(error_of(&array(8, 4, &[])), Some(SizeMismatch));
    assert_eq!(error_of(&array(4, 4, &[0; 6])), Some(SizeMismatch));
    assert_eq!(error_of(&array(0, 1, &[0; 8])), Some(SizeMismatch));
    // structs and objects
    assert_eq!(error_of(&pod(14, &[0; 4])), Some(Truncated));
    assert_eq!(error_of(&pod(14, &pod(4, &[0; 8]))), Some(SizeMismatch));
    assert_eq!(
        error_of(&pod(14, &join(&[&pod(4, &[0; 4]), &pod(12, &[])]))),
        Some(UnsupportedType)
    );
    assert_eq!(error_of(&pod(15, &[0; 12])), Some(Truncated));
    assert_eq!(
        error_of(&pod(15, &join(&[&[0; 16], &pod(8, b"abc")]))),
        Some(MissingTerminator)
    );
    // choices
    let choice = |sort: u32, size: u32, type_: u32, rest: &[u8]| {
        pod(
            19,
            &join(&[
                &sort.to_ne_bytes(),
                &0u32.to_ne_bytes(),
                &size.to_ne_bytes(),
                &type_.to_ne_bytes(),
                rest,
            ]),
        )
    };
    assert_eq!(error_of(&choice(0, 0, 1, &[])), Some(UnsupportedType));
    assert_eq!(error_of(&choice(0, 4, 9, &[0; 4])), Some(UnsupportedType));
    assert_eq!(error_of(&choice(0, 8, 4, &[0; 8])), Some(SizeMismatch));
    assert_eq!(error_of(&choice(0, 4, 4, &[0; 6])), Some(SizeMismatch));
    assert_eq!(error_of(&choice(5, 4, 4, &[0; 4])), Some(InvalidChoiceType));
    assert_eq!(error_of(&choice(0, 4, 4, &[])), Some(MissingChoiceValues));
    assert_eq!(error_of(&choice(1, 4, 4, &[0; 8])), Some(MissingChoiceValues));
    assert_eq!(error_of(&choice(2, 4, 4, &[0; 12])), Some(MissingChoiceValues));
    assert_eq!(error_of(&choice(3, 4, 4, &[])), Some(MissingChoiceValues));
    assert_eq!(error_of(&choice(4, 4, 4, &[])), Some(MissingChoiceValues));
}

#[test]
fn values_beyond_what_a_choice_needs_are_passed_over() {
    let bytes = pod(
        19,
        &join(&[
            &1u32.to_ne_bytes(),
            &0u32.to_ne_bytes(),
            &4u32.to_ne_bytes(),
            &4u32.to_ne_bytes(),
            &25i32.to_ne_bytes(),
            &0i32.to_ne_bytes(),
            &1000i32.to_ne_bytes(),
            &7i32.to_ne_bytes(),
        ]),
    );
    assert_eq!(
        decode(&bytes),
        Value::Choice(ChoiceValue::Int(Choice(
            ChoiceFlags::empty(),
            ChoiceEnum::Range {
                default: 25,
                min: 0,
                max: 1000,
            },
        )))
    );
}

#[test]
fn a_string_ends_at_its_first_zero_byte() {
    assert_eq!(
        decode(&pod(8, b"ab\0cd\0")),
        Value::String("ab".to_string())
    );
    assert_eq!(decode(&pod(8, b"ab\0cd")), Value::String("ab".to_string()));
    assert_eq!(decode(&pod(8, b"\0")), Value::String(String::new()));
}

#[test]
fn a_bool_is_true_for_every_integer_but_zero() {
    assert_eq!(decode(&pod(2, &2u32.to_ne_bytes())), Value::Bool(true));
    assert_eq!(decode(&pod(2, &u32::MAX.to_ne_bytes())), Value::Bool(true));
    assert_eq!(decode(&pod(2, &0u32.to_ne_bytes())), Value::Bool(false));
}

#[test]
fn what_stands_in_the_padding_does_not_matter() {
    let mut bytes = encode(&Value::Struct(vec![Value::Int(3), Value::Bytes(vec![1])]));
    let len = bytes.len();
    bytes[20] = 0xaa;
    bytes[len - 1] = 0xbb;
    assert_eq!(
        decode(&bytes),
        Value::Struct(vec![Value::Int(3), Value::Bytes(vec![1])])
    );
}

#[test]
fn a_copy_of_a_value_is_equal_to_it() {
    let values = vec![
        Value::Null,
        Value::String("foo".to_string()),
        Value::Bytes(vec![1, 2, 3]),
        Value::ValueArray(ValueArray::Null(vec![(), ()])),
        Value::ValueArray(ValueArray::Fraction(vec![Fraction { num: 1, denom: 2 }])),
        Value::Choice(ChoiceValue::Id(Choice(
            ChoiceFlags::from_bits_retain(3),
            ChoiceEnum::Flags {
                default: Id(1),
                flags: vec![Id(1), Id(2)],
            },
        ))),
        Value::Choice(ChoiceValue::Int(Choice(
            ChoiceFlags::empty(),
            ChoiceEnum::Step {
                default: 1,
                min: 2,
                max: 3,
                step: 4,
            },
        ))),
        Value::Pointer(1, 2),
        format_object(),
    ];
    for value in &values {
        assert_eq!(&value.duplicate(), value);
    }
    let all = Value::Struct(values);
    let copy = all.duplicate();
    assert_eq!(copy, all);
    assert_eq!(encode(&copy), encode(&all));
    assert_eq!(all.clone(), all);
    if let Value::Object(object) = format_object() {
        assert_eq!(object.clone(), object);
        assert_eq!(object.properties[1].clone(), object.properties[1]);
    }
}

#[test]
fn a_property_of_an_unknown_type_can_be_passed_over() {
    // an object with three properties; the value of the second is of a type
    // that no value has
    let unknown = pod(0x99, &[1, 2, 3]);
    let bytes = pod(
        15,
        &join(&[
            &262147u32.to_ne_bytes(),
            &3u32.to_ne_bytes(),
            &1u32.to_ne_bytes(),
            &0u32.to_ne_bytes(),
            &pod(3, &5u32.to_ne_bytes()),
            &77u32.to_ne_bytes(),
            &0u32.to_ne_bytes(),
            &unknown,
            &2u32.to_ne_bytes(),
            &0u32.to_ne_bytes(),
            &pod(4, &6i32.to_ne_bytes()),
        ]),
    );
    // as a whole, the object is no value
    assert_eq!(error_of(&bytes), Some(UnsupportedType));
    // property by property, what is known can be kept
    let view = Pod::from_bytes(&bytes).unwrap();
    let (type_, id, properties) = view.properties().unwrap();
    assert_eq!((type_, id), (262147, 3));
    let known: Vec<(u32, Value)> = properties
        .iter()
        .filter_map(|property| property.value.value().ok().map(|value| (property.key, value)))
        .collect();
    assert_eq!(
        known,
        vec![(1, Value::Id(Id(5))), (2, Value::Int(6))]
    );
    assert_eq!(properties[1].key, 77);
    assert_eq!(properties[1].value.type_().as_raw(), 0x99);
    assert_eq!(properties[1].value.body(), &[1, 2, 3]);
    assert_eq!(
        properties[1].value.value(),
        Err(DeserializeError::UnsupportedType)
    );
}
