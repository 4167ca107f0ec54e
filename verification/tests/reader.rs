use libspa::pod::model::DeserializeError;
use libspa::pod::serialize::PodSerializer;
use libspa::pod::wire::ByteOrder;
use libspa::pod::{Pod, Value};
use libspa::utils::{Double, Fd, Float, Fraction, Id, Rectangle, SpaTypes};

fn join(parts: &[&[u8]]) -> Vec<u8> {
    parts.iter().flat_map(|f| (*f)).copied().collect()
}

fn pod(type_: u32, body: &[u8]) -> Vec<u8> {
    let mut bytes = join(&[&(body.len() as u32).to_ne_bytes(), &type_.to_ne_bytes(), body]);
    while bytes.len() % 8 != 0 {
        bytes.push(0);
    }
    bytes
}

#[test]
fn from_bytes_wants_the_header_the_body_and_the_padding() {
    let whole = pod(9, &[1, 2, 3]);
    assert_eq!(whole.len(), 16);
    for cut in 0..16 {
        assert!(Pod::from_bytes(&whole[..cut]).is_none(), "{}", cut);
    }
    let view = Pod::from_bytes(&whole).unwrap();
    assert_eq!(view.size(), 3);
    assert_eq!(view.type_(), SpaTypes(9));
    assert_eq!(view.type_().as_raw(), 9);
    assert_eq!(view.as_bytes(), &whole[..11]);
    assert_eq!(view.body(), &[1, 2, 3]);
    assert_eq!(view.get_bytes(), Ok(&[1u8, 2, 3][..]));
    let mut longer = whole.clone();
    longer.extend_from_slice(&[9; 5]);
    let view = Pod::from_bytes(&longer).unwrap();
    assert_eq!(view.as_bytes(), &whole[..11]);
}

#[test]
fn from_bytes_does_not_trust_the_size() {
    let lying = join(&[&0xffff_fff9u32.to_ne_bytes(), &9u32.to_ne_bytes(), &[0; 64]]);
    assert!(Pod::from_bytes(&lying).is_none());
    let lying = join(&[&u32::MAX.to_ne_bytes(), &9u32.to_ne_bytes(), &[0; 64]]);
    assert!(Pod::from_bytes(&lying).is_none());
    let lying = join(&[&57u32.to_ne_bytes(), &9u32.to_ne_bytes(), &[0; 56]]);
    assert!(Pod::from_bytes(&lying).is_none());
    let honest = join(&[&56u32.to_ne_bytes(), &9u32.to_ne_bytes(), &[0; 56]]);
    assert!(Pod::from_bytes(&honest).is_some());
}

#[test]
fn predicates_tell_the_type() {
    let checks: [(u32, usize, fn(&Pod) -> bool); 19] = [
        (1, 0, |p| p.is_none()),
        (2, 4, |p| p.is_bool()),
        (3, 4, |p| p.is_id()),
        (4, 4, |p| p.is_int()),
        (5, 8, |p| p.is_long()),
        (6, 4, |p| p.is_float()),
        (7, 8, |p| p.is_double()),
        (8, 1, |p| p.is_string()),
        (9, 0, |p| p.is_bytes()),
        (10, 8, |p| p.is_rectangle()),
        (11, 8, |p| p.is_fraction()),
        (12, 1, |p| p.is_bitmap()),
        (13, 8, |p| p.is_array()),
        (14, 0, |p| p.is_struct()),
        (15, 8, |p| p.is_object()),
        (16, 8, |p| p.is_sequence()),
        (17, 16, |p| p.is_pointer()),
        (18, 8, |p| p.is_fd()),
        (19, 16, |p| p.is_choice()),
    ];
    for (type_, size, _) in checks {
        let bytes = pod(type_, &vec![0; size]);
        let view = Pod::from_bytes(&bytes).unwrap();
        for (other, _, check) in checks {
            assert_eq!(check(&view), other == type_, "{} as {}", type_, other);
        }
    }
}

#[test]
fn containers_need_the_beginning_of_their_body() {
    assert!(!Pod::from_bytes(&pod(13, &[0; 7])).unwrap().is_array());
    assert!(Pod::from_bytes(&pod(13, &[0; 8])).unwrap().is_array());
    assert!(!Pod::from_bytes(&pod(15, &[0; 4])).unwrap().is_object());
    assert!(!Pod::from_bytes(&pod(16, &[0; 4])).unwrap().is_sequence());
    assert!(!Pod::from_bytes(&pod(19, &[0; 15])).unwrap().is_choice());
    assert!(Pod::from_bytes(&pod(19, &[0; 16])).unwrap().is_choice());
}

#[test]
fn accessors_read_what_the_builder_wrote() {
    let get = |value: Value| PodSerializer::serialize(Vec::new(), &value).unwrap().0;
    let bytes = get(Value::Bool(true));
    assert_eq!(Pod::from_bytes(&bytes).unwrap().get_bool(), Ok(true));
    let bytes = get(Value::Id(Id(313)));
    assert_eq!(Pod::from_bytes(&bytes).unwrap().get_id(), Ok(Id(313)));
    let bytes = get(Value::Int(-313));
    assert_eq!(Pod::from_bytes(&bytes).unwrap().get_int(), Ok(-313));
    let bytes = get(Value::Long(-313));
    assert_eq!(Pod::from_bytes(&bytes).unwrap().get_long(), Ok(-313));
    let bytes = get(Value::Float(Float(31.3f32.to_bits())));
    assert_eq!(
        Pod::from_bytes(&bytes).unwrap().get_float(),
        Ok(Float(31.3f32.to_bits()))
    );
    let bytes = get(Value::Double(Double(31.3f64.to_bits())));
    assert_eq!(
        Pod::from_bytes(&bytes).unwrap().get_double(),
        Ok(Double(31.3f64.to_bits()))
    );
    let bytes = get(Value::Fd(Fd(-1)));
    assert_eq!(Pod::from_bytes(&bytes).unwrap().get_fd(), Ok(Fd(-1)));
    let rectangle = Rectangle {
        width: 313,
        height: 131,
    };
    let bytes = get(Value::Rectangle(rectangle));
    assert_eq!(
        Pod::from_bytes(&bytes).unwrap().get_rectangle(),
        Ok(rectangle)
    );
    let fraction = Fraction {
        num: 313,
        denom: 131,
    };
    let bytes = get(Value::Fraction(fraction));
    assert_eq!(Pod::from_bytes(&bytes).unwrap().get_fraction(), Ok(fraction));
    let bytes = get(Value::Pointer(7, 0x1234_5678_9abc_def0));
    assert_eq!(
        Pod::from_bytes(&bytes).unwrap().get_pointer(),
        Ok((0x1234_5678_9abc_def0, Id(7)))
    );
    let bytes = get(Value::String("grüße".to_string()));
    assert_eq!(Pod::from_bytes(&bytes).unwrap().get_string(), Ok("grüße"));
    let bytes = get(Value::Bytes(vec![3, 1, 3]));
    assert_eq!(
        Pod::from_bytes(&bytes).unwrap().get_bytes(),
        Ok(&[3u8, 1, 3][..])
    );
    let bytes = get(Value::Struct(vec![Value::Int(3)]));
    assert_eq!(
        Pod::from_bytes(&bytes).unwrap().value(),
        Ok(Value::Struct(vec![Value::Int(3)]))
    );
}

#[test]
fn accessors_check_the_type_and_the_size() {
    let int = pod(4, &7i32.to_ne_bytes());
    let view = Pod::from_bytes(&int).unwrap();
    assert_eq!(view.get_bool(), Err(DeserializeError::TypeMismatch));
    assert_eq!(view.get_id(), Err(DeserializeError::TypeMismatch));
    assert_eq!(view.get_long(), Err(DeserializeError::TypeMismatch));
    assert_eq!(view.get_float(), Err(DeserializeError::TypeMismatch));
    assert_eq!(view.get_double(), Err(DeserializeError::TypeMismatch));
    assert_eq!(view.get_fd(), Err(DeserializeError::TypeMismatch));
    assert_eq!(view.get_rectangle(), Err(DeserializeError::TypeMismatch));
    assert_eq!(view.get_fraction(), Err(DeserializeError::TypeMismatch));
    assert_eq!(view.get_pointer(), Err(DeserializeError::TypeMismatch));
    assert_eq!(view.get_bytes(), Err(DeserializeError::TypeMismatch));
    assert_eq!(view.get_string(), Err(DeserializeError::TypeMismatch));
    assert_eq!(view.get_int(), Ok(7));
    let wide = pod(4, &7i64.to_ne_bytes());
    assert_eq!(
        Pod::from_bytes(&wide).unwrap().get_int(),
        Err(DeserializeError::SizeMismatch)
    );
    let narrow = pod(5, &7i32.to_ne_bytes());
    assert_eq!(
        Pod::from_bytes(&narrow).unwrap().get_long(),
        Err(DeserializeError::SizeMismatch)
    );
    let short = pod(17, &[0; 8]);
    assert_eq!(
        Pod::from_bytes(&short).unwrap().get_pointer(),
        Err(DeserializeError::SizeMismatch)
    );
    let open = pod(8, b"abc");
    assert_eq!(
        Pod::from_bytes(&open).unwrap().get_string(),
        Err(DeserializeError::MissingTerminator)
    );
    let empty = pod(8, b"");
    assert_eq!(
        Pod::from_bytes(&empty).unwrap().get_string(),
        Err(DeserializeError::SizeMismatch)
    );
    let broken = pod(8, &[0xff, 0xfe, 0]);
    assert_eq!(
        Pod::from_bytes(&broken).unwrap().get_string(),
        Err(DeserializeError::InvalidUtf8)
    );
}

#[test]
fn pods_are_read_in_the_order_that_is_asked_for() {
    let bytes = join(&[&4u32.to_be_bytes(), &4u32.to_be_bytes(), &[0, 0, 1, 2], &[0; 4]]);
    let view = Pod::from_bytes_with_order(ByteOrder::Big, &bytes).unwrap();
    assert_eq!(view.order(), ByteOrder::Big);
    assert_eq!(view.get_int(), Ok(258));
    assert!(Pod::from_bytes_with_order(ByteOrder::Little, &bytes).is_none());
    let bytes = join(&[&4u32.to_le_bytes(), &4u32.to_le_bytes(), &[0, 0, 1, 2], &[0; 4]]);
    let view = Pod::from_bytes_with_order(ByteOrder::Little, &bytes).unwrap();
    assert_eq!(view.get_int(), Ok(0x0201_0000));
}

use libspa::pod::builder::Builder;

#[test]
fn the_fields_of_a_struct_are_views_into_its_bytes() {
    let mut builder = Builder::new(Vec::new());
    let outer = builder.push_struct().unwrap();
    builder.add_int(1).unwrap();
    builder.add_string("two").unwrap();
    let inner = builder.push_struct().unwrap();
    builder.add_long(3).unwrap();
    builder.pop(&inner);
    builder.pop(&outer);
    let bytes = builder.into_data();
    let view = Pod::from_bytes(&bytes).unwrap();
    let fields = view.fields().unwrap();
    assert_eq!(fields.len(), 3);
    assert_eq!(fields[0].get_int(), Ok(1));
    assert_eq!(fields[1].get_string(), Ok("two"));
    assert_eq!(fields[1].as_bytes(), &bytes[24..36]);
    assert!(fields[2].is_struct());
    let nested = fields[2].fields().unwrap();
    assert_eq!(nested.len(), 1);
    assert_eq!(nested[0].get_long(), Ok(3));
    assert!(nested[0].fields().is_err());
    assert_eq!(
        fields[0].fields().err(),
        Some(DeserializeError::TypeMismatch)
    );
    let empty = pod(14, &[]);
    assert!(Pod::from_bytes(&empty).unwrap().fields().unwrap().is_empty());
}

#[test]
fn a_field_that_leaves_its_struct_is_an_error() {
    // the field claims 16 bytes of body, the struct holds 8 of them
    let lying = pod(14, &join(&[&16u32.to_ne_bytes(), &9u32.to_ne_bytes(), &[0; 8]]));
    assert_eq!(
        Pod::from_bytes(&lying).unwrap().fields().err(),
        Some(DeserializeError::Truncated)
    );
    let short = pod(14, &[0; 4]);
    assert_eq!(
        Pod::from_bytes(&short).unwrap().fields().err(),
        Some(DeserializeError::Truncated)
    );
    // a field whose padding is missing
    let unpadded = pod(14, &join(&[&4u32.to_ne_bytes(), &4u32.to_ne_bytes(), &[0; 4]]));
    assert_eq!(
        Pod::from_bytes(&unpadded).unwrap().fields().err(),
        Some(DeserializeError::Truncated)
    );
}

#[test]
fn the_properties_of_an_object_come_with_key_and_flags() {
    let mut builder = Builder::new(Vec::new());
    let frame = builder.push_object(262147, 3).unwrap();
    builder.add_prop(1, 0).unwrap();
    builder.add_id(Id(1)).unwrap();
    builder.add_prop(2, 8).unwrap();
    builder.add_id(Id(2)).unwrap();
    builder.add_prop(1, 0).unwrap();
    builder.add_bytes(&[7]).unwrap();
    builder.pop(&frame);
    let bytes = builder.into_data();
    let view = Pod::from_bytes(&bytes).unwrap();
    let (type_, id, properties) = view.properties().unwrap();
    assert_eq!((type_, id), (262147, 3));
    assert_eq!(properties.len(), 3);
    assert_eq!((properties[0].key, properties[0].flags), (1, 0));
    assert_eq!(properties[0].value.get_id(), Ok(Id(1)));
    assert_eq!((properties[1].key, properties[1].flags), (2, 8));
    assert_eq!(properties[1].value.get_id(), Ok(Id(2)));
    assert_eq!((properties[2].key, properties[2].flags), (1, 0));
    assert_eq!(properties[2].value.get_bytes(), Ok(&[7u8][..]));
    assert_eq!(
        view.fields().err(),
        Some(DeserializeError::TypeMismatch)
    );
    let cut = pod(15, &join(&[&[0; 8], &[0; 4]]));
    assert_eq!(
        Pod::from_bytes(&cut).unwrap().properties().err(),
        Some(DeserializeError::Truncated)
    );
    let headless = pod(15, &[0; 4]);
    assert_eq!(
        Pod::from_bytes(&headless).unwrap().properties().err(),
        Some(DeserializeError::TypeMismatch)
    );
}

#[test]
fn the_controls_of_a_sequence_come_in_the_order_in_which_they_stand() {
    let mut builder = Builder::new(Vec::new());
    let frame = builder.push_sequence(5).unwrap();
    builder.add_control(30, 2);
    builder.add_int(1).unwrap();
    builder.add_control(10, 2);
    builder.add_int(2).unwrap();
    builder.add_control(20, 3);
    builder.add_long(3).unwrap();
    builder.pop(&frame);
    let bytes = builder.into_data();
    let view = Pod::from_bytes(&bytes).unwrap();
    assert!(view.is_sequence());
    let (unit, controls) = view.controls().unwrap();
    assert_eq!(unit, 5);
    let offsets: Vec<(u32, u32)> = controls.iter().map(|c| (c.offset, c.type_)).collect();
    assert_eq!(offsets, vec![(30, 2), (10, 2), (20, 3)]);
    assert_eq!(controls[0].value.get_int(), Ok(1));
    assert_eq!(controls[1].value.get_int(), Ok(2));
    assert_eq!(controls[2].value.get_long(), Ok(3));
    assert_eq!(
        view.properties().err(),
        Some(DeserializeError::TypeMismatch)
    );
}

#[test]
fn the_elements_of_an_array_are_as_long_as_the_array_says() {
    let mut builder = Builder::new(Vec::new());
    let frame = builder.push_array().unwrap();
    builder.add_int(1).unwrap();
    builder.add_int(2).unwrap();
    builder.add_int(3).unwrap();
    builder.pop(&frame);
    let bytes = builder.into_data();
    let view = Pod::from_bytes(&bytes).unwrap();
    let elements = view.elements().unwrap();
    assert_eq!((elements.child_size, elements.child_type), (4, 4));
    assert_eq!(
        elements.bodies,
        vec![
            &1i32.to_ne_bytes()[..],
            &2i32.to_ne_bytes()[..],
            &3i32.to_ne_bytes()[..]
        ]
    );
    // elements of a type that no value has
    let odd = pod(
        13,
        &join(&[&3u32.to_ne_bytes(), &99u32.to_ne_bytes(), &[1, 2, 3, 4, 5, 6]]),
    );
    let elements = Pod::from_bytes(&odd).unwrap().elements().unwrap();
    assert_eq!((elements.child_size, elements.child_type), (3, 99));
    assert_eq!(elements.bodies, vec![&[1u8, 2, 3][..], &[4u8, 5, 6][..]]);
    let ragged = pod(
        13,
        &join(&[&4u32.to_ne_bytes(), &4u32.to_ne_bytes(), &[0; 6]]),
    );
    assert_eq!(
        Pod::from_bytes(&ragged).unwrap().elements().err(),
        Some(DeserializeError::SizeMismatch)
    );
    let none = pod(13, &join(&[&0u32.to_ne_bytes(), &1u32.to_ne_bytes()]));
    assert!(Pod::from_bytes(&none)
        .unwrap()
        .elements()
        .unwrap()
        .bodies
        .is_empty());
    let short = pod(13, &[0; 4]);
    assert_eq!(
        Pod::from_bytes(&short).unwrap().elements().err(),
        Some(DeserializeError::SizeMismatch)
    );
}

#[test]
fn the_values_of_a_choice_follow_its_sort_and_flags() {
    let mut builder = Builder::new(Vec::new());
    let frame = builder.push_choice(1, 9).unwrap();
    builder.add_long(25).unwrap();
    builder.add_long(0).unwrap();
    builder.add_long(1000).unwrap();
    builder.pop(&frame);
    let bytes = builder.into_data();
    let view = Pod::from_bytes(&bytes).unwrap();
    assert!(view.is_choice());
    let (sort, flags, values) = view.choice_values().unwrap();
    assert_eq!((sort, flags), (1, 9));
    assert_eq!((values.child_size, values.child_type), (8, 5));
    assert_eq!(
        values.bodies,
        vec![
            &25i64.to_ne_bytes()[..],
            &0i64.to_ne_bytes()[..],
            &1000i64.to_ne_bytes()[..]
        ]
    );
    assert_eq!(
        view.elements().err(),
        Some(DeserializeError::TypeMismatch)
    );
    let short = pod(19, &[0; 8]);
    assert_eq!(
        Pod::from_bytes(&short).unwrap().choice_values().err(),
        Some(DeserializeError::SizeMismatch)
    );
}

#[test]
fn each_field_holds_the_value_that_stands_at_its_place() {
    let fields = vec![
        Value::Int(1),
        Value::String("two".to_string()),
        Value::Struct(vec![Value::Long(3), Value::Null]),
        Value::Bytes(vec![4]),
    ];
    let bytes = PodSerializer::serialize(Vec::new(), &Value::Struct(fields.clone()))
        .unwrap()
        .0;
    let view = Pod::from_bytes(&bytes).unwrap();
    let children = view.fields().unwrap();
    assert_eq!(children.len(), fields.len());
    for (child, field) in children.iter().zip(&fields) {
        assert_eq!(child.value().as_ref(), Ok(field));
    }
    assert_eq!(view.value(), Ok(Value::Struct(fields)));
}
