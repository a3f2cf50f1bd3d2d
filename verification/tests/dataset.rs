use klvmeta::dataset::{
    from_byte, i32_from_bits, i32_to_bits, tag_for, text_from_bytes, u32_from_be, u32_to_be,
    value, ExampleTag, TypedValue, TAG_INDEX, TAG_LABEL, TAG_MODE,
};
use klvmeta::klv::error::ParseError;

#[test]
fn tags_and_fields_are_inverse() {
    assert_eq!(TAG_INDEX, 2);
    assert_eq!(TAG_MODE, 3);
    assert_eq!(TAG_LABEL, 16);
    for field in [ExampleTag::Index, ExampleTag::Mode, ExampleTag::Label] {
        assert_eq!(from_byte(tag_for(field)), Some(field));
    }
    for tag in 0..=255u8 {
        match from_byte(tag) {
            Some(field) => assert_eq!(tag_for(field), tag),
            None => assert!(tag != 2 && tag != 3 && tag != 16),
        }
    }
}

#[test]
fn numbers_are_big_endian() {
    assert_eq!(u32_to_be(0x0102_0304), vec![1, 2, 3, 4]);
    assert_eq!(u32_to_be(12345), vec![0, 0, 0x30, 0x39]);
    assert_eq!(u32_from_be(&[1, 2, 3, 4]), Some(0x0102_0304));
    assert_eq!(u32_from_be(&[0xFF, 0xFF, 0xFF, 0xFF]), Some(u32::MAX));
    assert_eq!(u32_from_be(&[1, 2, 3]), None);
    assert_eq!(u32_from_be(&[1, 2, 3, 4, 5]), None);
    assert_eq!(i32_to_bits(-2), 0xFFFF_FFFE);
    assert_eq!(i32_to_bits(i32::MIN), 0x8000_0000);
    assert_eq!(i32_to_bits(i32::MAX), 0x7FFF_FFFF);
    assert_eq!(i32_from_bits(0xFFFF_FFFE), -2);
    assert_eq!(i32_from_bits(0x8000_0000), i32::MIN);
    for x in [0i32, 1, -1, 12345, -12345, i32::MIN, i32::MAX] {
        assert_eq!(i32_from_bits(u32_from_be(&u32_to_be(i32_to_bits(x))).unwrap()), x);
        assert_eq!(u32_to_be(i32_to_bits(x)), x.to_be_bytes().to_vec());
    }
}

#[test]
fn values_by_type() {
    assert!(matches!(value(2, &[0xFF, 0xFF, 0xFF, 0xFE]), Ok(TypedValue::I32(-2))));
    assert!(matches!(value(2, &[0, 0, 0x30, 0x39]), Ok(TypedValue::I32(12345))));
    assert!(matches!(value(3, &[0xFF, 0xFF, 0xFF, 0xFE]), Ok(TypedValue::U32(0xFFFF_FFFE))));
    match value(16, "läbel ラベル".as_bytes()) {
        Ok(TypedValue::Text(s)) => assert_eq!(s, "läbel ラベル"),
        other => panic!("{:?}", other),
    }
    match value(16, &[]) {
        Ok(TypedValue::Text(s)) => assert_eq!(s, ""),
        other => panic!("{:?}", other),
    }
}

#[test]
fn values_that_are_refused() {
    assert!(matches!(value(2, &[0, 0, 1]), Err(ParseError::WrongWidth(2))));
    assert!(matches!(value(2, &[0, 0, 0, 0, 1]), Err(ParseError::WrongWidth(2))));
    assert!(matches!(value(3, &[]), Err(ParseError::WrongWidth(3))));
    assert!(matches!(value(16, &[0x66, 0xFF]), Err(ParseError::InvalidUtf8(16))));
    assert!(matches!(value(16, &[0xE3, 0x83]), Err(ParseError::InvalidUtf8(16))));
    assert!(matches!(value(10, &[1, 2, 3, 4]), Err(ParseError::UnknownTag(10))));
    assert!(matches!(value(0, &[]), Err(ParseError::UnknownTag(0))));
}

#[test]
fn text_is_decoded_not_copied() {
    assert_eq!(text_from_bytes(&[0xC3, 0xA4]), Some("ä".to_string()));
    assert_eq!(text_from_bytes(&[0xC3, 0xA4]).unwrap().chars().count(), 1);
    assert_eq!(text_from_bytes(&[0xC3]), None);
    assert_eq!(text_from_bytes(&[0xED, 0xA0, 0x80]), None);
    assert_eq!(text_from_bytes(&[0xC0, 0x80]), None);
}
