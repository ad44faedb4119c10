use field_mapper::convert::Converter;
use field_mapper::error::ConversionError;
use field_mapper::value::{FieldValue, Time};

#[test]
fn bool_round_trip() {
    let fv = true.to_field_value();
    assert!(matches!(fv, FieldValue::Boolean(true)));
    let back: Result<bool, ConversionError> = bool::to_primitive(fv);
    assert_eq!(back.unwrap(), true);
}

#[test]
fn bool_type_mismatch_no_coercion() {
    let fv = FieldValue::Text(String::from("true"));
    let back: Result<bool, ConversionError> = bool::to_primitive(fv);
    assert!(matches!(back, Err(ConversionError::TypeMismatch)));
}

#[test]
fn string_round_trip() {
    let s = String::from("hello");
    let fv = s.to_field_value();
    assert!(matches!(fv, FieldValue::Text(ref t) if t == "hello"));
    let back: String = String::to_primitive(fv).unwrap();
    assert_eq!(back, "hello");
}

#[test]
fn empty_string_round_trip() {
    let s = String::new();
    let back: String = String::to_primitive(s.to_field_value()).unwrap();
    assert_eq!(back, "");
}

#[test]
fn char_round_trip() {
    let fv = 'x'.to_field_value();
    assert!(matches!(fv, FieldValue::Text(ref t) if t == "x"));
    let back: char = char::to_primitive(fv).unwrap();
    assert_eq!(back, 'x');
}

#[test]
fn char_rejects_longer_text() {
    let fv = FieldValue::Text(String::from("ab"));
    let back: Result<char, ConversionError> = char::to_primitive(fv);
    assert!(matches!(back, Err(ConversionError::TypeMismatch)));
}

#[test]
fn char_rejects_empty_text() {
    let fv = FieldValue::Text(String::new());
    let back: Result<char, ConversionError> = char::to_primitive(fv);
    assert!(matches!(back, Err(ConversionError::TypeMismatch)));
}

#[test]
fn time_round_trip() {
    let t = Time { seconds: 5678, nanos: 1234 };
    let fv = t.to_field_value();
    assert!(matches!(fv, FieldValue::Time(u) if u == t));
    let back: Time = Time::to_primitive(fv).unwrap();
    assert_eq!(back, t);
}

#[test]
fn time_is_not_a_generic_mapping() {
    let t = Time { seconds: 1, nanos: 2 };
    assert!(!matches!(t.to_field_value(), FieldValue::Mapping(_)));
}

#[test]
fn i64_round_trip() {
    let fv = (-12345i64).to_field_value();
    assert!(matches!(fv, FieldValue::Integer(-12345)));
    let back: i64 = i64::to_primitive(fv).unwrap();
    assert_eq!(back, -12345);
}

#[test]
fn i64_extremes_round_trip() {
    for v in [i64::MIN, -1, 0, 1, i64::MAX] {
        let back: i64 = i64::to_primitive(v.to_field_value()).unwrap();
        assert_eq!(back, v);
    }
}

#[test]
fn i8_round_trip_and_range() {
    for v in [i8::MIN, -1, 0, i8::MAX] {
        let back: i8 = i8::to_primitive(v.to_field_value()).unwrap();
        assert_eq!(back, v);
    }
    let too_big: Result<i8, ConversionError> = i8::to_primitive(FieldValue::Integer(128));
    assert!(matches!(too_big, Err(ConversionError::RangeError)));
    let too_small: Result<i8, ConversionError> = i8::to_primitive(FieldValue::Integer(-129));
    assert!(matches!(too_small, Err(ConversionError::RangeError)));
}

#[test]
fn i16_round_trip() {
    let back: i16 = i16::to_primitive((-30000i16).to_field_value()).unwrap();
    assert_eq!(back, -30000);
}

#[test]
fn i32_round_trip() {
    let back: i32 = i32::to_primitive(2000000000i32.to_field_value()).unwrap();
    assert_eq!(back, 2000000000);
}

#[test]
fn isize_round_trip() {
    let back: isize = isize::to_primitive((-7isize).to_field_value()).unwrap();
    assert_eq!(back, -7);
}

#[test]
fn u8_range_error_at_300() {
    let back: Result<u8, ConversionError> = u8::to_primitive(FieldValue::Integer(300));
    assert!(matches!(back, Err(ConversionError::RangeError)));
}

#[test]
fn u8_accepts_255() {
    let back: u8 = u8::to_primitive(FieldValue::Integer(255)).unwrap();
    assert_eq!(back, 255);
}

#[test]
fn u8_rejects_negative() {
    let back: Result<u8, ConversionError> = u8::to_primitive(FieldValue::Integer(-1));
    assert!(matches!(back, Err(ConversionError::RangeError)));
}

#[test]
fn u16_round_trip() {
    let back: u16 = u16::to_primitive(65535u16.to_field_value()).unwrap();
    assert_eq!(back, 65535);
}

#[test]
fn u32_round_trip_and_range() {
    let back: u32 = u32::to_primitive(4294967295u32.to_field_value()).unwrap();
    assert_eq!(back, 4294967295);
    let over: Result<u32, ConversionError> = u32::to_primitive(FieldValue::Integer(4294967296));
    assert!(matches!(over, Err(ConversionError::RangeError)));
}

#[test]
fn integer_type_mismatch_beats_range() {
    let back: Result<u8, ConversionError> = u8::to_primitive(FieldValue::Boolean(false));
    assert!(matches!(back, Err(ConversionError::TypeMismatch)));
}

#[test]
fn double_bits_have_no_integer_reading() {
    let back: Result<i64, ConversionError> = i64::to_primitive(FieldValue::Double(0x3FF0000000000000));
    assert!(matches!(back, Err(ConversionError::TypeMismatch)));
}

#[test]
fn to_primitive_method_on_value() {
    let fv = FieldValue::Integer(42);
    let back: i64 = fv.to_primitive::<i64>().unwrap();
    assert_eq!(back, 42);
}
