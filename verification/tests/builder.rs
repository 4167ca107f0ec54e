use libspa::param::audio::{
    SPA_FORMAT_MEDIA_SUBTYPE, SPA_FORMAT_MEDIA_TYPE, SPA_MEDIA_SUBTYPE_RAW, SPA_MEDIA_TYPE_AUDIO,
};
use libspa::param::format::{FormatProperties, MediaSubtype, MediaType};
use libspa::param::{ParamType, SPA_PARAM_FORMAT};
use libspa::pod::builder::Builder;
use libspa::utils::{Float, Id};

fn words(parts: &[[u8; 4]]) -> Vec<u8> {
    parts.iter().copied().flatten().collect()
}

#[test]
fn build_empty_struct() {
    let mut builder = Builder::new(Vec::new());
    let frame = builder.push_struct();
    assert!(frame.is_ok());
    builder.pop(&frame.unwrap());
    let data = builder.into_data();

    let other: Vec<u8> = words(&[
        0u32.to_ne_bytes(),  // body has size 0
        14u32.to_ne_bytes(), // struct type is 14
    ]);

    assert_eq!(&data, &other)
}

#[test]
fn build_small_struct() {
    let mut builder = Builder::new(Vec::new());
    let frame = builder.push_struct().unwrap();
    let res = builder.add_int(3);
    assert!(res.is_ok());
    builder.pop(&frame);
    let data = builder.into_data();

    let other: Vec<u8> = words(&[
        16u32.to_ne_bytes(), // body has size 16
        14u32.to_ne_bytes(), // struct type is 14
        4u32.to_ne_bytes(),  // child body size is 4
        4u32.to_ne_bytes(),  // Int child type is 4
        3i32.to_ne_bytes(),  // the integer
        [0, 0, 0, 0],        // padding
    ]);

    assert_eq!(&data, &other)
}

#[test]
fn build_complex_struct() {
    let mut builder = Builder::new(Vec::new());
    let outer = builder.push_struct().unwrap();
    let inner = builder.push_struct().unwrap();
    assert!(builder.add_float(Float(31.3f32.to_bits())).is_ok());
    assert!(builder.add_string("foo").is_ok());
    builder.pop(&inner);
    assert!(builder.add_int(3).is_ok());
    builder.pop(&outer);
    let data = builder.into_data();
    assert_eq!(data.len(), 8 + 8 + 16 + 16 + 16);
    assert_eq!(&data[0..4], &56u32.to_ne_bytes());
    assert_eq!(&data[8..12], &32u32.to_ne_bytes());
    assert_eq!(&data[32..40], &[4, 0, 0, 0, 8, 0, 0, 0][..].iter().map(|b| *b).collect::<Vec<u8>>()[..]);
    assert_eq!(&data[40..48], b"foo\0\0\0\0\0");
}

#[test]
fn build_empty_object() {
    let mut builder = Builder::new(Vec::new());
    let frame = builder.push_object(ParamType(SPA_PARAM_FORMAT).as_raw(), 0);
    assert!(frame.is_ok());
    builder.pop(&frame.unwrap());
    let data = builder.into_data();
    let other: Vec<u8> = words(&[
        8u32.to_ne_bytes(),
        15u32.to_ne_bytes(),
        4u32.to_ne_bytes(),
        0u32.to_ne_bytes(),
    ]);
    assert_eq!(&data, &other);
}

#[test]
fn build_object() {
    let mut builder = Builder::new(Vec::new());
    let frame = builder
        .push_object(ParamType(SPA_PARAM_FORMAT).as_raw(), 0)
        .unwrap();
    assert!(builder
        .add_prop(FormatProperties(SPA_FORMAT_MEDIA_TYPE).as_raw(), 0)
        .is_ok());
    assert!(builder
        .add_id(Id(MediaType(SPA_MEDIA_TYPE_AUDIO).as_raw()))
        .is_ok());
    assert!(builder
        .add_prop(FormatProperties(SPA_FORMAT_MEDIA_SUBTYPE).as_raw(), 0)
        .is_ok());
    assert!(builder
        .add_id(Id(MediaSubtype(SPA_MEDIA_SUBTYPE_RAW).as_raw()))
        .is_ok());
    builder.pop(&frame);
    let data = builder.into_data();
    assert_eq!(data.len(), 16 + 2 * 24);
    assert_eq!(&data[0..4], &56u32.to_ne_bytes());
    let other: Vec<u8> = words(&[
        56u32.to_ne_bytes(),
        15u32.to_ne_bytes(),
        4u32.to_ne_bytes(),
        0u32.to_ne_bytes(),
        1u32.to_ne_bytes(),
        0u32.to_ne_bytes(),
        4u32.to_ne_bytes(),
        3u32.to_ne_bytes(),
        1u32.to_ne_bytes(),
        0u32.to_ne_bytes(),
        2u32.to_ne_bytes(),
        0u32.to_ne_bytes(),
        4u32.to_ne_bytes(),
        3u32.to_ne_bytes(),
        1u32.to_ne_bytes(),
        0u32.to_ne_bytes(),
    ]);
    assert_eq!(&data, &other);
}

use libspa::pod::builder::BuilderError;
use libspa::pod::wire::ByteOrder;
use libspa::utils::{Double, Fraction, Rectangle};

fn join(parts: &[&[u8]]) -> Vec<u8> {
    parts.iter().flat_map(|f| (*f)).copied().collect()
}

#[test]
fn frames_are_popped_last_pushed_first() {
    let mut builder = Builder::new(Vec::new());
    let outer = builder.push_struct().unwrap();
    assert!(builder.add_int(1).is_ok());
    let inner = builder.push_struct().unwrap();
    assert!(builder.add_int(2).is_ok());
    let before = builder.data().clone();
    let offset = builder.offset();
    assert!(!builder.is_top_frame(&outer));
    assert!(builder.is_top_frame(&inner));
    assert_eq!(builder.checked_pop(&outer), Err(BuilderError::NotTopFrame));
    assert_eq!(builder.data(), &before);
    assert_eq!(builder.offset(), offset);
    assert_eq!(builder.checked_pop(&inner), Ok(()));
    assert_eq!(builder.checked_pop(&inner), Err(BuilderError::NotTopFrame));
    assert_eq!(builder.checked_pop(&outer), Ok(()));
    assert_eq!(builder.checked_pop(&outer), Err(BuilderError::NotTopFrame));
    assert_eq!(
        builder.into_data(),
        join(&[
            &40u32.to_ne_bytes(),
            &14u32.to_ne_bytes(),
            &4u32.to_ne_bytes(),
            &4u32.to_ne_bytes(),
            &1i32.to_ne_bytes(),
            &[0; 4],
            &16u32.to_ne_bytes(),
            &14u32.to_ne_bytes(),
            &4u32.to_ne_bytes(),
            &4u32.to_ne_bytes(),
            &2i32.to_ne_bytes(),
            &[0; 4],
        ])
    );
}

#[test]
fn a_frame_of_one_builder_is_no_frame_of_another() {
    let mut first = Builder::new(Vec::new());
    first.add_none().unwrap();
    let frame = first.push_struct().unwrap();
    let mut second = Builder::new(Vec::new());
    let other = second.push_struct().unwrap();
    assert_eq!(second.checked_pop(&frame), Err(BuilderError::NotTopFrame));
    assert_eq!(second.checked_pop(&other), Ok(()));
    assert_eq!(first.checked_pop(&frame), Ok(()));
}

#[test]
fn arrays_take_their_element_type_from_the_first_element() {
    let mut builder = Builder::new(Vec::new());
    let frame = builder.push_array().unwrap();
    builder.add_int(1).unwrap();
    builder.add_int(2).unwrap();
    builder.add_int(3).unwrap();
    builder.pop(&frame);
    assert_eq!(
        builder.into_data(),
        join(&[
            &20u32.to_ne_bytes(),
            &13u32.to_ne_bytes(),
            &4u32.to_ne_bytes(),
            &4u32.to_ne_bytes(),
            &1i32.to_ne_bytes(),
            &2i32.to_ne_bytes(),
            &3i32.to_ne_bytes(),
            &[0; 4],
        ])
    );
}

#[test]
fn an_array_without_elements_gets_an_empty_element() {
    let mut builder = Builder::new(Vec::new());
    let frame = builder.push_array().unwrap();
    builder.pop(&frame);
    assert_eq!(
        builder.into_data(),
        join(&[
            &8u32.to_ne_bytes(),
            &13u32.to_ne_bytes(),
            &0u32.to_ne_bytes(),
            &1u32.to_ne_bytes(),
        ])
    );
}

#[test]
fn add_array_writes_the_bodies_as_they_are() {
    let mut builder = Builder::new(Vec::new());
    let elems = join(&[&1i64.to_ne_bytes(), &2i64.to_ne_bytes()]);
    assert!(builder.add_array(8, 5, 2, &elems).is_ok());
    assert_eq!(
        builder.into_data(),
        join(&[
            &24u32.to_ne_bytes(),
            &13u32.to_ne_bytes(),
            &8u32.to_ne_bytes(),
            &5u32.to_ne_bytes(),
            &1i64.to_ne_bytes(),
            &2i64.to_ne_bytes(),
        ])
    );
}

#[test]
fn choices_hold_their_sort_flags_and_values() {
    let mut builder = Builder::new(Vec::new());
    let frame = builder.push_choice(1, 0).unwrap();
    builder.add_int(25).unwrap();
    builder.add_int(0).unwrap();
    builder.add_int(1000).unwrap();
    builder.pop(&frame);
    builder.add_none().unwrap();
    assert_eq!(
        builder.into_data(),
        join(&[
            &28u32.to_ne_bytes(),
            &19u32.to_ne_bytes(),
            &1u32.to_ne_bytes(),
            &0u32.to_ne_bytes(),
            &4u32.to_ne_bytes(),
            &4u32.to_ne_bytes(),
            &25i32.to_ne_bytes(),
            &0i32.to_ne_bytes(),
            &1000i32.to_ne_bytes(),
            &[0; 4],
            &0u32.to_ne_bytes(),
            &1u32.to_ne_bytes(),
        ])
    );
}

#[test]
fn sequences_hold_controls() {
    let mut builder = Builder::new(Vec::new());
    let frame = builder.push_sequence(0).unwrap();
    assert_eq!(builder.add_control(0, 2), 0);
    builder.add_int(7).unwrap();
    assert_eq!(builder.add_control(16, 2), 0);
    builder.add_long(8).unwrap();
    builder.pop(&frame);
    assert_eq!(
        builder.into_data(),
        join(&[
            &56u32.to_ne_bytes(),
            &16u32.to_ne_bytes(),
            &0u32.to_ne_bytes(),
            &0u32.to_ne_bytes(),
            &0u32.to_ne_bytes(),
            &2u32.to_ne_bytes(),
            &4u32.to_ne_bytes(),
            &4u32.to_ne_bytes(),
            &7i32.to_ne_bytes(),
            &[0; 4],
            &16u32.to_ne_bytes(),
            &2u32.to_ne_bytes(),
            &8u32.to_ne_bytes(),
            &5u32.to_ne_bytes(),
            &8i64.to_ne_bytes(),
        ])
    );
}

#[test]
fn every_primitive_has_its_header_body_and_padding() {
    let mut builder = Builder::with_order(Vec::new(), ByteOrder::Little);
    assert_eq!(builder.order(), ByteOrder::Little);
    builder.add_none().unwrap();
    builder.add_bool(true).unwrap();
    builder.add_id(Id(0x0102_0304)).unwrap();
    builder.add_int(-2).unwrap();
    builder.add_long(-2).unwrap();
    builder.add_float(Float(0x3f80_0000)).unwrap();
    builder.add_double(Double(0x3ff0_0000_0000_0000)).unwrap();
    builder.add_string("ab").unwrap();
    builder.add_bytes(&[9, 8, 7, 6, 5]).unwrap();
    builder.add_pointer(Id(3), 0x0102_0304_0506_0708).unwrap();
    builder.add_fd(-1).unwrap();
    builder
        .add_rectangle(Rectangle {
            width: 1,
            height: 2,
        })
        .unwrap();
    builder.add_fraction(Fraction { num: 3, denom: 4 }).unwrap();
    assert_eq!(
        builder.into_data(),
        join(&[
            &[0, 0, 0, 0, 1, 0, 0, 0],
            &[4, 0, 0, 0, 2, 0, 0, 0, 1, 0, 0, 0, 0, 0, 0, 0],
            &[4, 0, 0, 0, 3, 0, 0, 0, 4, 3, 2, 1, 0, 0, 0, 0],
            &[4, 0, 0, 0, 4, 0, 0, 0, 0xfe, 0xff, 0xff, 0xff, 0, 0, 0, 0],
            &[8, 0, 0, 0, 5, 0, 0, 0, 0xfe, 0xff, 0xff, 0xff, 0xff, 0xff, 0xff, 0xff],
            &[4, 0, 0, 0, 6, 0, 0, 0, 0, 0, 0x80, 0x3f, 0, 0, 0, 0],
            &[8, 0, 0, 0, 7, 0, 0, 0, 0, 0, 0, 0, 0, 0, 0xf0, 0x3f],
            &[3, 0, 0, 0, 8, 0, 0, 0, b'a', b'b', 0, 0, 0, 0, 0, 0],
            &[5, 0, 0, 0, 9, 0, 0, 0, 9, 8, 7, 6, 5, 0, 0, 0],
            &[16, 0, 0, 0, 17, 0, 0, 0, 3, 0, 0, 0, 0, 0, 0, 0],
            &[8, 7, 6, 5, 4, 3, 2, 1],
            &[8, 0, 0, 0, 18, 0, 0, 0, 0xff, 0xff, 0xff, 0xff, 0xff, 0xff, 0xff, 0xff],
            &[8, 0, 0, 0, 10, 0, 0, 0, 1, 0, 0, 0, 2, 0, 0, 0],
            &[8, 0, 0, 0, 11, 0, 0, 0, 3, 0, 0, 0, 4, 0, 0, 0],
        ])
    );
}

#[test]
fn big_endian_builders_write_the_most_significant_byte_first() {
    let mut builder = Builder::with_order(Vec::new(), ByteOrder::Big);
    builder.add_id(Id(0x0102_0304)).unwrap();
    builder.add_long(0x0102_0304_0506_0708).unwrap();
    assert_eq!(
        builder.into_data(),
        join(&[
            &[0, 0, 0, 4, 0, 0, 0, 3, 1, 2, 3, 4, 0, 0, 0, 0],
            &[0, 0, 0, 8, 0, 0, 0, 5, 1, 2, 3, 4, 5, 6, 7, 8],
        ])
    );
}

#[test]
fn the_builder_writes_over_what_is_there_and_grows() {
    let mut builder = Builder::new(vec![0xaa; 12]);
    assert_eq!(builder.offset(), 0);
    builder.add_int(3).unwrap();
    assert_eq!(builder.offset(), 16);
    assert_eq!(builder.data().len(), 16);
    let mut builder = Builder::new(vec![0xaa; 20]);
    builder.raw(&[1, 2, 3]);
    builder.pad(3);
    assert_eq!(builder.offset(), 8);
    assert_eq!(&builder.data()[..8], &[1, 2, 3, 0, 0, 0, 0, 0]);
    assert_eq!(&builder.data()[8..], &[0xaa; 12]);
    assert!(builder.raw_padded(&[4; 9]).is_ok());
    assert_eq!(builder.offset(), 24);
    assert_eq!(builder.data().len(), 24);
    assert_eq!(&builder.data()[8..17], &[4; 9]);
    assert_eq!(&builder.data()[17..], &[0; 7]);
}

#[test]
fn the_size_of_a_container_is_written_when_it_is_closed() {
    let mut builder = Builder::new(Vec::new());
    let frame = builder.push_object(7, 8).unwrap();
    assert_eq!(frame.start(), 0);
    assert_eq!(frame.level(), 0);
    assert_eq!(&builder.data()[..4], &8u32.to_ne_bytes());
    builder.add_prop(1, 2).unwrap();
    builder.add_bytes(&[1]).unwrap();
    assert_eq!(&builder.data()[..4], &8u32.to_ne_bytes());
    builder.pop(&frame);
    assert_eq!(&builder.data()[..4], &32u32.to_ne_bytes());
    assert_eq!(builder.data().len(), 40);
}
