use field_mapper::containers::StrMap;
use field_mapper::convert::Converter;
use field_mapper::error::ConversionError;
use field_mapper::value::FieldValue;

#[test]
fn option_none_encodes_as_null() {
    let v: Option<String> = None;
    assert!(matches!(v.to_field_value(), FieldValue::Null));
    let back: Option<String> = Option::<String>::to_primitive(FieldValue::Null).unwrap();
    assert!(back.is_none());
}

#[test]
fn option_some_round_trip() {
    let v: Option<u8> = Some(7);
    let fv = v.to_field_value();
    assert!(matches!(fv, FieldValue::Integer(7)));
    let back: Option<u8> = Option::<u8>::to_primitive(fv).unwrap();
    assert_eq!(back, Some(7));
}

#[test]
fn option_propagates_inner_error() {
    let back: Result<Option<u8>, ConversionError> =
        Option::<u8>::to_primitive(FieldValue::Integer(300));
    assert!(matches!(back, Err(ConversionError::RangeError)));
}

#[test]
fn vec_round_trip_preserves_order() {
    let v: Vec<String> = vec![String::from("array1"), String::from("array2")];
    let fv = v.to_field_value();
    match &fv {
        FieldValue::Array(items) => {
            assert_eq!(items.len(), 2);
            assert!(matches!(items[0], FieldValue::Text(ref t) if t == "array1"));
            assert!(matches!(items[1], FieldValue::Text(ref t) if t == "array2"));
        }
        _ => panic!("expected an array"),
    }
    let back: Vec<String> = Vec::<String>::to_primitive(fv).unwrap();
    assert_eq!(back, vec![String::from("array1"), String::from("array2")]);
}

#[test]
fn empty_vec_round_trip() {
    let v: Vec<i64> = Vec::new();
    let back: Vec<i64> = Vec::<i64>::to_primitive(v.to_field_value()).unwrap();
    assert!(back.is_empty());
}

#[test]
fn vec_type_mismatch() {
    let back: Result<Vec<i64>, ConversionError> =
        Vec::<i64>::to_primitive(FieldValue::Integer(1));
    assert!(matches!(back, Err(ConversionError::TypeMismatch)));
}

#[test]
fn vec_fail_fast_on_second_element() {
    let fv = FieldValue::Array(vec![
        FieldValue::Integer(1),
        FieldValue::Text(String::from("x")),
        FieldValue::Integer(3),
    ]);
    let back: Result<Vec<i64>, ConversionError> = Vec::<i64>::to_primitive(fv);
    assert!(matches!(back, Err(ConversionError::TypeMismatch)));
}

#[test]
fn vec_fail_fast_surfaces_first_error() {
    let fv = FieldValue::Array(vec![
        FieldValue::Integer(1),
        FieldValue::Integer(300),
        FieldValue::Text(String::from("x")),
    ]);
    let back: Result<Vec<u8>, ConversionError> = Vec::<u8>::to_primitive(fv);
    assert!(matches!(back, Err(ConversionError::RangeError)));
}

#[test]
fn strmap_insert_get_len() {
    let mut m: StrMap<i64> = StrMap::new();
    assert_eq!(m.len(), 0);
    m.insert(String::from("key1"), 1);
    m.insert(String::from("key2"), 2);
    assert_eq!(m.len(), 2);
    assert_eq!(m.get(&String::from("key1")), Some(&1));
    assert_eq!(m.get(&String::from("key2")), Some(&2));
    assert_eq!(m.get(&String::from("key3")), None);
}

#[test]
fn strmap_round_trip() {
    let mut m: StrMap<i64> = StrMap::new();
    m.insert(String::from("a"), 1);
    m.insert(String::from("b"), 2);
    let fv = m.to_field_value();
    match &fv {
        FieldValue::Mapping(entries) => assert_eq!(entries.len(), 2),
        _ => panic!("expected a mapping"),
    }
    let back: StrMap<i64> = StrMap::<i64>::to_primitive(fv).unwrap();
    assert_eq!(back.len(), 2);
    assert_eq!(back.get(&String::from("a")), Some(&1));
    assert_eq!(back.get(&String::from("b")), Some(&2));
}

#[test]
fn strmap_type_mismatch() {
    let back: Result<StrMap<i64>, ConversionError> =
        StrMap::<i64>::to_primitive(FieldValue::Null);
    assert!(matches!(back, Err(ConversionError::TypeMismatch)));
}

#[test]
fn strmap_fail_fast_on_bad_value() {
    let fv = FieldValue::Mapping(vec![
        (String::from("good"), FieldValue::Integer(1)),
        (String::from("bad"), FieldValue::Text(String::from("x"))),
    ]);
    let back: Result<StrMap<i64>, ConversionError> = StrMap::<i64>::to_primitive(fv);
    assert!(matches!(back, Err(ConversionError::TypeMismatch)));
}

#[test]
fn nested_option_vec_map_round_trip() {
    let mut m: StrMap<i64> = StrMap::new();
    m.insert(String::from("a"), 1);
    m.insert(String::from("b"), 2);
    let v: Option<Vec<StrMap<i64>>> = Some(vec![m]);
    let fv = v.to_field_value();
    let back: Option<Vec<StrMap<i64>>> =
        Option::<Vec<StrMap<i64>>>::to_primitive(fv).unwrap();
    let inner = back.expect("expected a present value");
    assert_eq!(inner.len(), 1);
    assert_eq!(inner[0].len(), 2);
    assert_eq!(inner[0].get(&String::from("a")), Some(&1));
    assert_eq!(inner[0].get(&String::from("b")), Some(&2));
}
