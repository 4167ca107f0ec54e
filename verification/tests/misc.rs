use libspa::channel::{channel, Channel};
use libspa::pod::canonical::{CanonicalFixedSizedPod, FixedSizedPod};
use libspa::pod::deserialize::{PodDeserialize, PodDeserializer, ValueVisitor, Visitor};
use libspa::pod::model::{DeserializeError, Kind};
use libspa::pod::model::SerializeError;
use libspa::pod::serialize::{serialize_fixed_sized_pod, PodSerialize, PodSerializer};
use libspa::utils::{Choice, ChoiceEnum};
use libspa::pod::builder::Builder;
use libspa::pod::wire::{
    i32_bits, i32_from_bits, i64_bits, i64_from_bits, padding, read_u32, read_u64, write_u32,
    write_u64, ByteOrder,
};
use libspa::pod::{ChoiceValue, Object, PropertyFlags, Value, ValueArray};
use libspa::state::{LinkState, NodeState, StreamState};
use libspa::utils::flags::{
    SPA_POD_PROP_FLAG_DONT_FIXATE, SPA_POD_PROP_FLAG_HARDWARE, SPA_POD_PROP_FLAG_HINT_DICT,
    SPA_POD_PROP_FLAG_MANDATORY, SPA_POD_PROP_FLAG_READONLY,
};
use libspa::utils::{ChoiceFlags, Double, Fd, Float, Fraction, Id, Rectangle, SpaTypes};

#[test]
fn integers_are_read_and_written_in_both_orders() {
    let mut out = vec![9];
    write_u32(ByteOrder::Little, 0x0102_0304, &mut out);
    write_u32(ByteOrder::Big, 0x0102_0304, &mut out);
    write_u64(ByteOrder::Little, 0x0102_0304_0506_0708, &mut out);
    write_u64(ByteOrder::Big, 0x0102_0304_0506_0708, &mut out);
    assert_eq!(
        out,
        vec![9, 4, 3, 2, 1, 1, 2, 3, 4, 8, 7, 6, 5, 4, 3, 2, 1, 1, 2, 3, 4, 5, 6, 7, 8]
    );
    assert_eq!(read_u32(ByteOrder::Little, &out, 1), 0x0102_0304);
    assert_eq!(read_u32(ByteOrder::Big, &out, 5), 0x0102_0304);
    assert_eq!(read_u32(ByteOrder::Big, &out, 1), 0x0403_0201);
    assert_eq!(read_u64(ByteOrder::Little, &out, 9), 0x0102_0304_0506_0708);
    assert_eq!(read_u64(ByteOrder::Big, &out, 17), 0x0102_0304_0506_0708);
    assert_eq!(read_u64(ByteOrder::Little, &out, 17), 0x0807_0605_0403_0201);
    for x in [0u32, 1, 255, 256, 65535, 65536, 0x00ff_ffff, 0x0100_0000, u32::MAX] {
        let mut le = Vec::new();
        write_u32(ByteOrder::Little, x, &mut le);
        assert_eq!(le, x.to_le_bytes());
        let mut be = Vec::new();
        write_u32(ByteOrder::Big, x, &mut be);
        assert_eq!(be, x.to_be_bytes());
    }
    for x in [0u64, 1, u32::MAX as u64, u32::MAX as u64 + 1, u64::MAX, 0x8000_0000_0000_0000] {
        let mut le = Vec::new();
        write_u64(ByteOrder::Little, x, &mut le);
        assert_eq!(le, x.to_le_bytes());
        assert_eq!(read_u64(ByteOrder::Little, &le, 0), x);
        let mut be = Vec::new();
        write_u64(ByteOrder::Big, x, &mut be);
        assert_eq!(be, x.to_be_bytes());
        assert_eq!(read_u64(ByteOrder::Big, &be, 0), x);
    }
}

#[test]
fn signed_integers_keep_their_bits() {
    for x in [0i32, 1, -1, i32::MIN, i32::MAX, -313] {
        assert_eq!(i32_bits(x), x as u32);
        assert_eq!(i32_from_bits(x as u32), x);
    }
    for x in [0i64, 1, -1, i64::MIN, i64::MAX, -313] {
        assert_eq!(i64_bits(x), x as u64);
        assert_eq!(i64_from_bits(x as u64), x);
    }
}

#[test]
fn padding_brings_a_size_to_a_multiple_of_eight() {
    assert_eq!(
        (0..18).map(padding).collect::<Vec<usize>>(),
        vec![0, 7, 6, 5, 4, 3, 2, 1, 0, 7, 6, 5, 4, 3, 2, 1, 0, 7]
    );
    assert_eq!(padding(usize::MAX), 1);
}

#[test]
fn kinds_have_their_types_and_sizes() {
    let kinds = [
        (Kind::Null, 1, 0),
        (Kind::Bool, 2, 4),
        (Kind::Id, 3, 4),
        (Kind::Int, 4, 4),
        (Kind::Long, 5, 8),
        (Kind::Float, 6, 4),
        (Kind::Double, 7, 8),
        (Kind::Rectangle, 10, 8),
        (Kind::Fraction, 11, 8),
        (Kind::Fd, 18, 8),
    ];
    for (kind, type_, size) in kinds {
        assert_eq!(kind.type_(), type_);
        assert_eq!(kind.size(), size);
        assert_eq!(Kind::from_type(type_), Some(kind));
    }
    for type_ in [0, 8, 9, 12, 13, 14, 15, 16, 17, 19, 20, 21] {
        assert_eq!(Kind::from_type(type_), None);
    }
    assert_eq!(<()>::kind(), Kind::Null);
    assert_eq!(bool::kind(), Kind::Bool);
    assert_eq!(Id::kind(), Kind::Id);
    assert_eq!(i32::kind(), Kind::Int);
    assert_eq!(i64::kind(), Kind::Long);
    assert_eq!(Float::kind(), Kind::Float);
    assert_eq!(Double::kind(), Kind::Double);
    assert_eq!(Rectangle::kind(), Kind::Rectangle);
    assert_eq!(Fraction::kind(), Kind::Fraction);
    assert_eq!(Fd::kind(), Kind::Fd);
}

#[test]
fn bodies_are_read_where_they_begin_and_not_beyond_the_end() {
    let bytes = [0xff, 1, 0, 0, 0, 2, 0, 0, 0];
    assert_eq!(i32::deserialize_body(ByteOrder::Little, &bytes, 1), Some(1));
    assert_eq!(i32::deserialize_body(ByteOrder::Little, &bytes, 5), Some(2));
    assert_eq!(i32::deserialize_body(ByteOrder::Little, &bytes, 6), None);
    assert_eq!(i32::deserialize_body(ByteOrder::Little, &bytes, usize::MAX), None);
    assert_eq!(
        Rectangle::deserialize_body(ByteOrder::Little, &bytes, 1),
        Some(Rectangle {
            width: 1,
            height: 2
        })
    );
    assert_eq!(Rectangle::deserialize_body(ByteOrder::Little, &bytes, 2), None);
    assert_eq!(i64::deserialize_body(ByteOrder::Little, &bytes, 2), None);
    assert_eq!(<()>::deserialize_body(ByteOrder::Little, &bytes, 9), Some(()));
    assert_eq!(<()>::deserialize_body(ByteOrder::Little, &bytes, 10), None);
    assert_eq!(bool::deserialize_body(ByteOrder::Little, &bytes, 0), Some(true));
    let mut out = Vec::new();
    Fraction { num: 1, denom: 2 }.serialize_body(ByteOrder::Big, &mut out);
    assert_eq!(out, vec![0, 0, 0, 1, 0, 0, 0, 2]);
    assert_eq!(
        Fraction::deserialize_body(ByteOrder::Big, &out, 0),
        Some(Fraction { num: 1, denom: 2 })
    );
}

struct Percent(i32);

impl FixedSizedPod for Percent {
    type CanonicalType = i32;

    fn as_canonical_type(&self) -> i32 {
        self.0
    }

    fn from_canonical_type(canonical: &i32) -> Self {
        Percent(*canonical)
    }
}

#[test]
fn a_type_of_ones_own_is_serialized_as_its_canonical_type() {
    let mut builder = Builder::new(Vec::new());
    serialize_fixed_sized_pod(&mut builder, &Percent(42));
    let bytes = builder.into_data();
    let (same, _) = PodSerializer::serialize(Vec::new(), &Value::Int(42)).unwrap();
    assert_eq!(bytes, same);
    let canonical = libspa::pod::Pod::from_bytes(&bytes)
        .unwrap()
        .get_fixed::<i32>()
        .unwrap();
    assert_eq!(Percent::from_canonical_type(&canonical).0, 42);
    assert_eq!(7i32.as_canonical_type(), 7);
    assert_eq!(i32::from_canonical_type(&7), 7);
}

struct TextLength;

impl Visitor for TextLength {
    type Value = usize;

    fn visit_none(&self) -> Result<usize, DeserializeError> {
        Ok(0)
    }
    fn visit_bool(&self, _: bool) -> Result<usize, DeserializeError> {
        Err(DeserializeError::TypeMismatch)
    }
    fn visit_id(&self, _: Id) -> Result<usize, DeserializeError> {
        Err(DeserializeError::TypeMismatch)
    }
    fn visit_int(&self, _: i32) -> Result<usize, DeserializeError> {
        Err(DeserializeError::TypeMismatch)
    }
    fn visit_long(&self, _: i64) -> Result<usize, DeserializeError> {
        Err(DeserializeError::TypeMismatch)
    }
    fn visit_float(&self, _: Float) -> Result<usize, DeserializeError> {
        Err(DeserializeError::TypeMismatch)
    }
    fn visit_double(&self, _: Double) -> Result<usize, DeserializeError> {
        Err(DeserializeError::TypeMismatch)
    }
    fn visit_string(&self, value: &str) -> Result<usize, DeserializeError> {
        Ok(value.chars().count())
    }
    fn visit_bytes(&self, value: &[u8]) -> Result<usize, DeserializeError> {
        Ok(value.len())
    }
    fn visit_rectangle(&self, _: Rectangle) -> Result<usize, DeserializeError> {
        Err(DeserializeError::TypeMismatch)
    }
    fn visit_fraction(&self, _: Fraction) -> Result<usize, DeserializeError> {
        Err(DeserializeError::TypeMismatch)
    }
    fn visit_fd(&self, _: Fd) -> Result<usize, DeserializeError> {
        Err(DeserializeError::TypeMismatch)
    }
    fn visit_array(&self, _: ValueArray) -> Result<usize, DeserializeError> {
        Err(DeserializeError::TypeMismatch)
    }
    fn visit_struct(&self, fields: Vec<Value>) -> Result<usize, DeserializeError> {
        Ok(fields.len())
    }
    fn visit_object(&self, object: Object) -> Result<usize, DeserializeError> {
        Ok(object.properties.len())
    }
    fn visit_choice(&self, _: ChoiceValue) -> Result<usize, DeserializeError> {
        Err(DeserializeError::TypeMismatch)
    }
    fn visit_pointer(&self, _: u32, _: u64) -> Result<usize, DeserializeError> {
        Err(DeserializeError::TypeMismatch)
    }
}

#[test]
fn a_visitor_makes_of_a_pod_what_it_is_after() {
    let pod = |value: Value| PodSerializer::serialize(Vec::new(), &value).unwrap().0;
    let visit = |bytes: &[u8]| PodDeserializer::visit_from(bytes, &TextLength).map(|r| r.1);
    assert_eq!(visit(&pod(Value::String("grüße".to_string()))), Ok(5));
    assert_eq!(visit(&pod(Value::Bytes(vec![1, 2, 3]))), Ok(3));
    assert_eq!(visit(&pod(Value::Null)), Ok(0));
    assert_eq!(
        visit(&pod(Value::Struct(vec![Value::Int(1), Value::Int(2)]))),
        Ok(2)
    );
    assert_eq!(
        visit(&pod(Value::Int(1))),
        Err(DeserializeError::TypeMismatch)
    );
    assert_eq!(visit(&[0; 4]), Err(DeserializeError::Truncated));
    let bytes = pod(Value::Struct(vec![Value::Int(1), Value::Long(2)]));
    let (rest, value) = PodDeserializer::visit_from(&bytes, &ValueVisitor).unwrap();
    assert!(rest.is_empty());
    assert_eq!(value, Value::Struct(vec![Value::Int(1), Value::Long(2)]));
    for order in [ByteOrder::Little, ByteOrder::Big] {
        let (bytes, _) =
            PodSerializer::serialize_with_order(order, Vec::new(), &Value::Fd(Fd(-3))).unwrap();
        assert_eq!(
            PodDeserializer::visit_with_order(order, &bytes, &ValueVisitor)
                .unwrap()
                .1,
            Value::Fd(Fd(-3))
        );
    }
}

#[test]
fn flags_are_sets_of_bits() {
    assert_eq!(SPA_POD_PROP_FLAG_READONLY, 1);
    assert_eq!(SPA_POD_PROP_FLAG_HARDWARE, 2);
    assert_eq!(SPA_POD_PROP_FLAG_HINT_DICT, 4);
    assert_eq!(SPA_POD_PROP_FLAG_MANDATORY, 8);
    assert_eq!(SPA_POD_PROP_FLAG_DONT_FIXATE, 16);
    let readonly = PropertyFlags::from_bits_retain(SPA_POD_PROP_FLAG_READONLY);
    let hardware = PropertyFlags::from_bits_retain(SPA_POD_PROP_FLAG_HARDWARE);
    let both = readonly.union(hardware);
    assert_eq!(both.bits(), 3);
    assert!(both.contains(readonly));
    assert!(both.contains(hardware));
    assert!(!readonly.contains(hardware));
    assert!(readonly.contains(PropertyFlags::empty()));
    assert_eq!(PropertyFlags::empty().bits(), 0);
    assert_eq!(ChoiceFlags::empty().bits(), 0);
    assert_eq!(ChoiceFlags::from_bits_retain(0x8000_0001).bits(), 0x8000_0001);
    assert_eq!(SpaTypes::from_raw(14).as_raw(), 14);
    assert_eq!(SpaTypes::from_raw(14), SpaTypes(14));
}

#[test]
fn messages_are_received_in_the_order_in_which_they_were_sent() {
    let (sender, receiver) = channel::<u32>();
    let wakes = std::cell::Cell::new(0);
    let wake = || {
        wakes.set(wakes.get() + 1);
        true
    };
    assert!(receiver.receive().is_empty());
    assert_eq!(sender.send(1, wake), Ok(()));
    assert_eq!(sender.send(2, wake), Ok(()));
    let other = sender.clone();
    assert_eq!(other.send(3, wake), Ok(()));
    assert_eq!(wakes.get(), 1);
    let attached = receiver.attach(7);
    assert_eq!(attached.source_id(), 7);
    assert_eq!(attached.receive(), vec![1, 2, 3]);
    assert!(attached.receive().is_empty());
    assert_eq!(other.send(4, wake), Ok(()));
    assert_eq!(wakes.get(), 2);
    let receiver = attached.deattach();
    assert_eq!(sender.send(5, wake), Ok(()));
    assert_eq!(wakes.get(), 2);
    assert_eq!(receiver.receive(), vec![4, 5]);
}

#[test]
fn a_message_is_handed_back_when_the_receiver_cannot_be_woken() {
    let (sender, receiver) = channel::<String>();
    let calls = std::cell::Cell::new(0);
    let failing = || {
        calls.set(calls.get() + 1);
        false
    };
    let working = || {
        calls.set(calls.get() + 1);
        true
    };
    // Nothing waits, so the receiver has to be woken; that fails.
    assert_eq!(sender.send("a".to_string(), failing), Err("a".to_string()));
    assert_eq!(calls.get(), 1);
    assert!(receiver.receive().is_empty());
    // Nothing was queued, so the next message wakes the receiver again.
    assert_eq!(sender.send("b".to_string(), working), Ok(()));
    assert_eq!(calls.get(), 2);
    // A message waits: the receiver is not woken, so nothing can fail.
    assert_eq!(sender.send("c".to_string(), failing), Ok(()));
    assert_eq!(calls.get(), 2);
    assert_eq!(receiver.receive(), vec!["b".to_string(), "c".to_string()]);
    assert_eq!(sender.send("d".to_string(), failing), Err("d".to_string()));
    assert_eq!(calls.get(), 3);
    assert!(receiver.receive().is_empty());
}

#[test]
fn every_sender_reaches_the_one_receiver() {
    let (sender, receiver) = channel::<u32>();
    let senders: Vec<_> = (0..4).map(|_| sender.clone()).collect();
    let wakes = std::cell::Cell::new(0);
    for i in 0..100 {
        for (t, sender) in senders.iter().enumerate() {
            let sent = sender.send(t as u32 * 100 + i, || {
                wakes.set(wakes.get() + 1);
                true
            });
            assert_eq!(sent, Ok(()));
        }
    }
    assert_eq!(wakes.get(), 1);
    let mut messages = receiver.receive();
    assert_eq!(messages.len(), 400);
    assert_eq!(&messages[..5], &[0, 100, 200, 300, 1]);
    messages.sort();
    assert_eq!(messages, (0..400).collect::<Vec<u32>>());
}

#[test]
fn a_queue_wakes_the_receiver_for_the_first_message_only() {
    let mut queue = Channel::new();
    assert!(queue.is_empty());
    assert_eq!(queue.send("a", || false), Err("a"));
    assert!(queue.is_empty());
    assert_eq!(queue.send("a", || true), Ok(()));
    assert_eq!(queue.send("b", || false), Ok(()));
    assert_eq!(queue.len(), 2);
    assert_eq!(queue.drain(), vec!["a", "b"]);
    assert!(queue.is_empty());
    assert!(queue.drain().is_empty());
    assert_eq!(queue.send("c", || true), Ok(()));
    assert_eq!(queue.len(), 1);
}

#[test]
fn states_are_told_by_their_numbers() {
    let link: Vec<i32> = (-3..=5)
        .filter_map(|raw| LinkState::from_raw(raw, "broken").map(|s| s.as_raw()))
        .collect();
    assert_eq!(link, vec![-2, -1, 0, 1, 2, 3, 4]);
    assert!(matches!(
        LinkState::from_raw(-2, "broken"),
        Some(LinkState::Error("broken"))
    ));
    assert!(matches!(LinkState::from_raw(-1, ""), Some(LinkState::Unlinked)));
    assert!(matches!(LinkState::from_raw(0, ""), Some(LinkState::Init)));
    assert!(matches!(
        LinkState::from_raw(1, ""),
        Some(LinkState::Negotiating)
    ));
    assert!(matches!(
        LinkState::from_raw(2, ""),
        Some(LinkState::Allocating)
    ));
    assert!(matches!(LinkState::from_raw(3, ""), Some(LinkState::Paused)));
    assert!(matches!(LinkState::from_raw(4, ""), Some(LinkState::Active)));
    let node: Vec<i32> = (-3..=5)
        .filter_map(|raw| NodeState::from_raw(raw, "broken").map(|s| s.as_raw()))
        .collect();
    assert_eq!(node, vec![-1, 0, 1, 2, 3]);
    assert!(matches!(
        NodeState::from_raw(-1, "broken"),
        Some(NodeState::Error("broken"))
    ));
    assert!(matches!(NodeState::from_raw(0, ""), Some(NodeState::Creating)));
    assert!(matches!(
        NodeState::from_raw(1, ""),
        Some(NodeState::Suspended)
    ));
    assert!(matches!(NodeState::from_raw(2, ""), Some(NodeState::Idle)));
    assert!(matches!(NodeState::from_raw(3, ""), Some(NodeState::Running)));
    assert_eq!(
        StreamState::from_raw(-1, "broken".to_string()),
        StreamState::Error("broken".to_string())
    );
    assert_eq!(
        StreamState::from_raw(9, String::new()),
        StreamState::Error(String::new())
    );
    assert_eq!(
        StreamState::from_raw(0, "x".to_string()),
        StreamState::Unconnected
    );
    assert_eq!(
        StreamState::from_raw(1, "x".to_string()),
        StreamState::Connecting
    );
    assert_eq!(StreamState::from_raw(2, "x".to_string()), StreamState::Paused);
    assert_eq!(
        StreamState::from_raw(3, "x".to_string()),
        StreamState::Streaming
    );
}

#[test]
fn pods_are_read_as_the_type_that_is_asked_for() {
    let pod = |value: Value| PodSerializer::serialize(Vec::new(), &value).unwrap().0;
    let mut bytes = pod(Value::Int(-7));
    bytes.extend_from_slice(&[1, 2, 3]);
    let (rest, value): (&[u8], i32) = PodDeserializer::deserialize_from(&bytes).unwrap();
    assert_eq!(value, -7);
    assert_eq!(rest, &[1, 2, 3]);
    let (rest, value): (&[u8], Value) = PodDeserializer::deserialize_from(&bytes).unwrap();
    assert_eq!(value, Value::Int(-7));
    assert_eq!(rest, &[1, 2, 3]);
    assert_eq!(
        PodDeserializer::deserialize_from::<i64>(&bytes).err(),
        Some(DeserializeError::TypeMismatch)
    );
    assert_eq!(
        PodDeserializer::deserialize_from::<bool>(&bytes).err(),
        Some(DeserializeError::TypeMismatch)
    );
    assert_eq!(
        PodDeserializer::deserialize_from::<i32>(&bytes[..15]).err(),
        Some(DeserializeError::Truncated)
    );
    assert_eq!(
        PodDeserializer::deserialize_from::<()>(&pod(Value::Null)).unwrap().1,
        ()
    );
    assert_eq!(
        PodDeserializer::deserialize_from::<bool>(&pod(Value::Bool(true))).unwrap().1,
        true
    );
    assert_eq!(
        PodDeserializer::deserialize_from::<Id>(&pod(Value::Id(Id(5)))).unwrap().1,
        Id(5)
    );
    assert_eq!(
        PodDeserializer::deserialize_from::<i64>(&pod(Value::Long(5))).unwrap().1,
        5
    );
    assert_eq!(
        PodDeserializer::deserialize_from::<Float>(&pod(Value::Float(Float(5)))).unwrap().1,
        Float(5)
    );
    assert_eq!(
        PodDeserializer::deserialize_from::<Double>(&pod(Value::Double(Double(5)))).unwrap().1,
        Double(5)
    );
    assert_eq!(
        PodDeserializer::deserialize_from::<Fd>(&pod(Value::Fd(Fd(5)))).unwrap().1,
        Fd(5)
    );
    let rectangle = Rectangle {
        width: 1,
        height: 2,
    };
    assert_eq!(
        PodDeserializer::deserialize_from::<Rectangle>(&pod(Value::Rectangle(rectangle)))
            .unwrap()
            .1,
        rectangle
    );
    let fraction = Fraction { num: 1, denom: 2 };
    assert_eq!(
        PodDeserializer::deserialize_from::<Fraction>(&pod(Value::Fraction(fraction)))
            .unwrap()
            .1,
        fraction
    );
    let wide = [&8u32.to_ne_bytes()[..], &4u32.to_ne_bytes()[..], &[0; 8][..]].concat();
    assert_eq!(
        i32::deserialize(ByteOrder::native(), &wide).err(),
        Some(DeserializeError::SizeMismatch)
    );
    assert_eq!(i32::deserialize(ByteOrder::native(), &bytes), Ok((-7, 16)));
    assert_eq!(
        Value::deserialize(ByteOrder::native(), &bytes),
        Ok((Value::Int(-7), 16))
    );
}

#[test]
fn choices_are_read_as_choices_over_the_type_that_is_asked_for() {
    let range = Choice(
        ChoiceFlags::empty(),
        ChoiceEnum::Range {
            default: 25,
            min: 0,
            max: 1000,
        },
    );
    let bytes = PodSerializer::serialize(
        Vec::new(),
        &Value::Choice(ChoiceValue::Int(range.clone())),
    )
    .unwrap()
    .0;
    let (rest, choice): (&[u8], Choice<i32>) = PodDeserializer::deserialize_from(&bytes).unwrap();
    assert!(rest.is_empty());
    assert_eq!(choice, range);
    assert_eq!(
        PodDeserializer::deserialize_from::<Choice<i64>>(&bytes).err(),
        Some(DeserializeError::TypeMismatch)
    );
    assert_eq!(
        PodDeserializer::deserialize_from::<Choice<Id>>(&bytes).err(),
        Some(DeserializeError::TypeMismatch)
    );
    assert_eq!(
        PodDeserializer::deserialize_from::<i32>(&bytes).err(),
        Some(DeserializeError::TypeMismatch)
    );
    let int = PodSerializer::serialize(Vec::new(), &Value::Int(1)).unwrap().0;
    assert_eq!(
        PodDeserializer::deserialize_from::<Choice<i32>>(&int).err(),
        Some(DeserializeError::TypeMismatch)
    );
    // a range with two values only is no range, whatever the type asked for
    let short = [
        &24u32.to_ne_bytes()[..],
        &19u32.to_ne_bytes()[..],
        &1u32.to_ne_bytes()[..],
        &0u32.to_ne_bytes()[..],
        &4u32.to_ne_bytes()[..],
        &4u32.to_ne_bytes()[..],
        &[0; 8][..],
    ]
    .concat();
    assert_eq!(
        PodDeserializer::deserialize_from::<Choice<i32>>(&short).err(),
        Some(DeserializeError::MissingChoiceValues)
    );
    assert_eq!(
        PodDeserializer::deserialize_from::<Choice<Id>>(&short).err(),
        Some(DeserializeError::MissingChoiceValues)
    );
}

struct Point {
    x: i32,
    y: i32,
}

impl PodSerialize for Point {
    fn serialize(&self, builder: &mut Builder) -> Result<(), SerializeError> {
        let frame = builder.push_struct().map_err(|_| SerializeError::TooLarge)?;
        self.x.serialize(builder)?;
        self.y.serialize(builder)?;
        builder
            .checked_pop(&frame)
            .map_err(|_| SerializeError::TooLarge)
    }
}

#[test]
fn a_type_of_ones_own_is_written_as_it_says() {
    let point = Point { x: 1, y: -2 };
    let (bytes, written) =
        PodSerializer::serialize_as(ByteOrder::native(), Vec::new(), &point).unwrap();
    let (same, _) = PodSerializer::serialize(
        Vec::new(),
        &Value::Struct(vec![Value::Int(1), Value::Int(-2)]),
    )
    .unwrap();
    assert_eq!(bytes, same);
    assert_eq!(written, 40);
    let (bytes, _) =
        PodSerializer::serialize_as(ByteOrder::native(), Vec::new(), &Value::Int(1)).unwrap();
    assert_eq!(bytes.len(), 16);
    let (bytes, _) =
        PodSerializer::serialize_as(ByteOrder::native(), Vec::new(), &Percent(9)).unwrap();
    assert_eq!(
        PodDeserializer::deserialize_from::<i32>(&bytes).unwrap().1,
        9
    );
    assert_eq!(
        PodSerializer::serialize_as(
            ByteOrder::native(),
            Vec::new(),
            &Value::String("\0".to_string())
        )
        .err(),
        Some(SerializeError::InteriorNul)
    );
}

#[test]
fn the_byte_order_is_told_from_the_layout_of_one() {
    assert_eq!(ByteOrder::of_layout([1, 0]), ByteOrder::Little);
    assert_eq!(ByteOrder::of_layout([0, 1]), ByteOrder::Big);
    assert_eq!(ByteOrder::of_layout(1u16.to_le_bytes()), ByteOrder::Little);
    assert_eq!(ByteOrder::of_layout(1u16.to_be_bytes()), ByteOrder::Big);
    assert_eq!(ByteOrder::native(), ByteOrder::of_layout(1u16.to_ne_bytes()));
}
