use libspa::pod::model::DeserializeError;
use libspa::pod::parser::Parser;
use libspa::pod::Pod;
use libspa::utils::{Double, Fd, Float, Fraction, Id, Rectangle};

fn join(parts: &[&[u8]]) -> Vec<u8> {
    parts.iter().flat_map(|f| (*f)).copied().collect()
}

#[test]
fn parse_bool() {
    let pod: Vec<u8> = join(&[
        &4u32.to_ne_bytes(), // bool body size
        &2u32.to_ne_bytes(), // bool type
        &1u32.to_ne_bytes(), // bool "true"
        &[0, 0, 0, 0],       // padding
    ]);

    let mut parser = Parser::new(&pod);

    let res = parser.get_bool();

    assert!(res.is_ok());
    assert!(res.unwrap());
}

#[test]
fn parse_empty_struct() {
    let pod: Vec<u8> = join(&[
        &0u32.to_ne_bytes(),  // body size: 0 children => 0 bytes
        &14u32.to_ne_bytes(), // struct type
    ]);

    let mut parser = Parser::new(&pod);

    let frame = parser.push_struct();
    assert!(frame.is_ok());
    let res = parser.pop(&frame.unwrap());

    assert!(res.is_ok());
}

fn complicated_struct() -> Vec<u8> {
    join(&[
        &168u32.to_ne_bytes(), // body size: (1 child * 104 bytes) + (4 children * 16 bytes per child) = 168 bytes
        &14u32.to_ne_bytes(),  // struct type
        // begin inner struct
        &96u32.to_ne_bytes(), // body size: (6 children * 16 bytes per child) = 96 bytes
        &14u32.to_ne_bytes(), // struct type
        &4u32.to_ne_bytes(),  // bool body size
        &2u32.to_ne_bytes(),  // bool type
        &1u32.to_ne_bytes(),  // bool "true"
        &[0, 0, 0, 0],        // padding
        &4u32.to_ne_bytes(),  // id body size
        &3u32.to_ne_bytes(),  // id type
        &313u32.to_ne_bytes(), // id 313
        &[0, 0, 0, 0],        // padding
        &4u32.to_ne_bytes(),  // int body size
        &4u32.to_ne_bytes(),  // int type
        &313i32.to_ne_bytes(), // int 313
        &[0, 0, 0, 0],        // padding
        &8u32.to_ne_bytes(),  // long body size
        &5u32.to_ne_bytes(),  // long type
        &313i64.to_ne_bytes(), // long 313
        &4u32.to_ne_bytes(),  // float body size
        &6u32.to_ne_bytes(),  // float type
        &31.3f32.to_ne_bytes(), // float 31.3
        &[0, 0, 0, 0],        // padding
        &8u32.to_ne_bytes(),  // double body size
        &7u32.to_ne_bytes(),  // double type
        &31.3f64.to_ne_bytes(), // double 31.3
        // end inner struct
        &3u32.to_ne_bytes(),   // bytes body size
        &9u32.to_ne_bytes(),   // bytes type
        &[3, 1, 3],            // bytes [3u8, 1u8, 3u8]
        &[0, 0, 0, 0, 0],      // padding
        &8u32.to_ne_bytes(),   // fd body size
        &18u32.to_ne_bytes(),  // fd type
        &313i64.to_ne_bytes(), // fd 313
        &8u32.to_ne_bytes(),   // rectangle body size
        &10u32.to_ne_bytes(),  // rectangle type
        &313u32.to_ne_bytes(), // rectangle width 313
        &131u32.to_ne_bytes(), // rectangle height 131
        &8u32.to_ne_bytes(),   // fraction body size
        &11u32.to_ne_bytes(),  // fraction type
        &313u32.to_ne_bytes(), // fraction num 313
        &131u32.to_ne_bytes(), // fraction denom 131
    ])
}

#[test]
fn parse_complicated_struct() {
    let pod = complicated_struct();

    let mut parser = Parser::new(&pod);

    let outer = parser.push_struct().unwrap();
    let inner = parser.push_struct().unwrap();
    let bool = parser.get_bool().unwrap();
    let id = parser.get_id().unwrap();
    let int = parser.get_int().unwrap();
    let long = parser.get_long().unwrap();
    let float = parser.get_float().unwrap();
    let double = parser.get_double().unwrap();
    assert!(parser.pop(&inner).is_ok());
    let bytes = parser.get_bytes().unwrap();
    let fd = parser.get_fd().unwrap();
    let rect = parser.get_rectangle().unwrap();
    let frac = parser.get_fraction().unwrap();
    let res = parser.pop(&outer);

    assert!(res.is_ok());
    assert!(bool);
    assert_eq!(id, Id(313));
    assert_eq!(int, 313);
    assert_eq!(long, 313);
    assert_eq!(f32::from_bits(float.0), 31.3);
    assert_eq!(f64::from_bits(double.0), 31.3);
    assert_eq!(float, Float(31.3f32.to_bits()));
    assert_eq!(double, Double(31.3f64.to_bits()));
    assert_eq!(bytes, &[3, 1, 3]);
    assert_eq!(fd, Fd(313));
    assert_eq!(
        rect,
        Rectangle {
            width: 313,
            height: 131
        }
    );
    assert_eq!(
        frac,
        Fraction {
            num: 313,
            denom: 131
        }
    );
}

#[test]
fn parser_stops_at_the_end_of_a_frame() {
    let pod = complicated_struct();
    let mut parser = Parser::new(&pod);
    let outer = parser.push_struct().unwrap();
    let inner = parser.push_struct().unwrap();
    for _ in 0..6 {
        assert!(parser.get_pod().is_ok());
    }
    // the inner struct is used up, although more pods follow in the outer one
    assert_eq!(parser.get_pod().err(), Some(DeserializeError::Truncated));
    assert!(parser.current().is_none());
    assert!(parser.pop(&inner).is_ok());
    assert_eq!(parser.offset(), 8 + 104);
    assert!(parser.get_bytes().is_ok());
    assert!(parser.pop(&outer).is_ok());
    assert_eq!(parser.offset(), 176);
    assert!(parser.next().is_none());
}

#[test]
fn parser_keeps_its_place_on_a_type_mismatch() {
    let pod: Vec<u8> = join(&[
        &4u32.to_ne_bytes(),
        &4u32.to_ne_bytes(),
        &7i32.to_ne_bytes(),
        &[0, 0, 0, 0],
    ]);
    let mut parser = Parser::new(&pod);
    assert_eq!(parser.get_bool(), Err(DeserializeError::TypeMismatch));
    assert_eq!(parser.offset(), 0);
    assert_eq!(parser.get_long(), Err(DeserializeError::TypeMismatch));
    assert_eq!(parser.push_struct().err(), Some(DeserializeError::TypeMismatch));
    assert_eq!(parser.get_int(), Ok(7));
    assert_eq!(parser.offset(), 16);
    assert_eq!(parser.get_int(), Err(DeserializeError::Truncated));
}

#[test]
fn parser_rejects_a_size_that_does_not_fit_the_kind() {
    let pod: Vec<u8> = join(&[
        &8u32.to_ne_bytes(),
        &4u32.to_ne_bytes(), // an int with a body of 8 bytes
        &7i64.to_ne_bytes(),
    ]);
    let mut parser = Parser::new(&pod);
    assert_eq!(parser.get_int(), Err(DeserializeError::SizeMismatch));
    assert_eq!(parser.offset(), 0);
}

#[test]
fn parser_checked_pop_rejects_frames_out_of_order() {
    let pod = complicated_struct();
    let mut parser = Parser::new(&pod);
    let outer = parser.push_struct().unwrap();
    let inner = parser.push_struct().unwrap();
    let at = parser.offset();
    assert!(parser.checked_pop(&outer).is_err());
    assert_eq!(parser.offset(), at);
    assert!(parser.checked_pop(&inner).is_ok());
    assert!(parser.checked_pop(&inner).is_err());
    assert!(parser.checked_pop(&outer).is_ok());
    assert!(parser.checked_pop(&outer).is_err());
}

#[test]
fn parser_steps_into_objects() {
    let pod: Vec<u8> = join(&[
        &32u32.to_ne_bytes(),
        &15u32.to_ne_bytes(),     // object
        &262147u32.to_ne_bytes(), // object type
        &3u32.to_ne_bytes(),      // object id
        &1u32.to_ne_bytes(),      // key
        &0u32.to_ne_bytes(),      // flags
        &4u32.to_ne_bytes(),
        &3u32.to_ne_bytes(),
        &1u32.to_ne_bytes(),
        &[0, 0, 0, 0],
    ]);
    let mut parser = Parser::new(&pod);
    assert_eq!(
        parser.push_object(262148).err(),
        Some(DeserializeError::ObjectTypeMismatch)
    );
    assert_eq!(parser.offset(), 0);
    let (frame, id) = parser.push_object(262147).unwrap();
    assert_eq!(id, Id(3));
    assert_eq!(parser.offset(), pod.len());
    assert!(parser.pop(&frame).is_ok());
    assert_eq!(parser.offset(), 40);
}

#[test]
fn parser_from_pod_reads_the_fields_of_a_struct() {
    let bytes = complicated_struct();
    let pod = Pod::from_bytes(&bytes).unwrap();
    let mut parser = Parser::from_pod(&pod);
    let outer = parser.push_struct().unwrap();
    let inner = parser.get_pod().unwrap();
    assert!(inner.is_struct());
    assert_eq!(inner.size(), 96);
    let mut fields = Parser::from_pod(&inner);
    let frame = fields.push_struct().unwrap();
    assert_eq!(fields.get_bool(), Ok(true));
    assert_eq!(fields.get_id(), Ok(Id(313)));
    assert!(fields.checked_pop(&frame).is_ok());
    assert_eq!(parser.get_bytes().unwrap(), &[3, 1, 3]);
    assert!(parser.checked_pop(&outer).is_ok());
}

#[test]
fn parser_from_pod_stands_at_the_pod() {
    // an empty struct, and something behind it that is not part of it
    let bytes: Vec<u8> = join(&[
        &0u32.to_ne_bytes(),
        &14u32.to_ne_bytes(),
        &4u32.to_ne_bytes(),
        &4u32.to_ne_bytes(),
        &7u32.to_ne_bytes(),
        &[0, 0, 0, 0],
    ]);
    let pod = Pod::from_bytes(&bytes).unwrap();
    assert_eq!(pod.as_bytes(), &bytes[..8]);
    let mut parser = Parser::from_pod(&pod);
    let frame = parser.push_struct().unwrap();
    assert_eq!(parser.offset(), 8);
    // the struct has no field, so the integer behind it is out of reach
    assert_eq!(parser.get_int(), Err(DeserializeError::Truncated));
    assert!(parser.pop(&frame).is_ok());
    assert_eq!(parser.offset(), 8);
    assert_eq!(parser.get_int(), Err(DeserializeError::Truncated));

    let mut whole = Parser::new(&bytes);
    let frame = whole.push_struct().unwrap();
    assert_eq!(whole.get_int(), Err(DeserializeError::Truncated));
    assert!(whole.pop(&frame).is_ok());
    assert_eq!(whole.get_int(), Ok(7));
}

#[test]
fn parser_needs_an_offset_that_is_a_multiple_of_eight() {
    // a string of 5 bytes is padded to 8: the parser passes the padding too
    let pod: Vec<u8> = join(&[
        &5u32.to_ne_bytes(),
        &8u32.to_ne_bytes(),
        b"abcd\0",
        &[0, 0, 0],
        &0u32.to_ne_bytes(),
        &1u32.to_ne_bytes(),
    ]);
    let mut parser = Parser::new(&pod);
    assert_eq!(parser.get_string(), Ok("abcd"));
    assert_eq!(parser.offset(), 16);
    let none = parser.get_pod().unwrap();
    assert!(none.is_none());
}

#[test]
fn strings_are_handed_out_raw_or_as_text() {
    let pod: Vec<u8> = join(&[
        &4u32.to_ne_bytes(),
        &8u32.to_ne_bytes(),
        &[0xff, 0xfe, 0, 7],
        &[0; 4],
        &4u32.to_ne_bytes(),
        &8u32.to_ne_bytes(),
        b"abc\0",
        &[0; 4],
        &3u32.to_ne_bytes(),
        &8u32.to_ne_bytes(),
        b"abc",
        &[0; 5],
    ]);
    let mut parser = Parser::new(&pod);
    // no text, but bytes up to the first zero byte
    assert_eq!(parser.get_string(), Err(DeserializeError::InvalidUtf8));
    assert_eq!(parser.offset(), 0);
    assert_eq!(parser.get_string_raw(), Ok(&[0xffu8, 0xfe][..]));
    assert_eq!(parser.offset(), 16);
    assert_eq!(parser.get_string_raw(), Ok(&b"abc"[..]));
    assert_eq!(
        parser.get_string_raw(),
        Err(DeserializeError::MissingTerminator)
    );
    assert_eq!(parser.get_string(), Err(DeserializeError::MissingTerminator));
    assert_eq!(parser.get_bytes(), Err(DeserializeError::TypeMismatch));
    assert_eq!(parser.offset(), 32);
    let view = Pod::from_bytes(&pod).unwrap();
    assert_eq!(view.get_string_raw(), Ok(&[0xffu8, 0xfe][..]));
    assert_eq!(
        Pod::from_bytes(&pod[16..]).unwrap().get_int().err(),
        Some(DeserializeError::TypeMismatch)
    );
}

#[test]
fn pointers_are_read_with_their_type() {
    let pod: Vec<u8> = join(&[
        &16u32.to_ne_bytes(),
        &17u32.to_ne_bytes(),
        &3u32.to_ne_bytes(),
        &0u32.to_ne_bytes(),
        &0xdead_beefu64.to_ne_bytes(),
    ]);
    let mut parser = Parser::new(&pod);
    assert_eq!(parser.get_fd(), Err(DeserializeError::TypeMismatch));
    assert_eq!(parser.get_pointer(), Ok((0xdead_beef, Id(3))));
    assert_eq!(parser.get_pointer(), Err(DeserializeError::Truncated));
}
