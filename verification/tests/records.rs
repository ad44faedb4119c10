use field_mapper::containers::StrMap;
use field_mapper::convert::Converter;
use field_mapper::error::ConversionError;
use field_mapper::record::{Item, Mapper, Profile, Wrapper, take_entry};
use field_mapper::value::FieldValue;

#[test]
fn item_round_trip() {
    let item = Item { id: 1234, name: String::from("str") };
    let m = item.to_map();
    assert_eq!(m.len(), 2);
    assert!(matches!(m[0], (ref k, FieldValue::Integer(1234)) if k == "id"));
    assert!(matches!(m[1], (ref k, FieldValue::Text(ref t)) if k == "name" && t == "str"));
    let back = Item::from_map(m).unwrap();
    assert_eq!(back.id, 1234);
    assert_eq!(back.name, "str");
}

#[test]
fn item_missing_field_names_it() {
    let m = vec![(String::from("id"), FieldValue::Integer(1))];
    let back = Item::from_map(m);
    assert!(matches!(back, Err(ConversionError::MissingField(ref f)) if f == "name"));
}

#[test]
fn item_missing_first_field() {
    let m = vec![(String::from("name"), FieldValue::Text(String::from("a")))];
    let back = Item::from_map(m);
    assert!(matches!(back, Err(ConversionError::MissingField(ref f)) if f == "id"));
}

#[test]
fn item_extra_keys_ignored() {
    let m = vec![
        (String::from("id"), FieldValue::Integer(1)),
        (String::from("name"), FieldValue::Text(String::from("a"))),
        (String::from("extra"), FieldValue::Boolean(true)),
    ];
    let back = Item::from_map(m).unwrap();
    assert_eq!(back.id, 1);
    assert_eq!(back.name, "a");
}

#[test]
fn item_field_error_names_field_and_cause() {
    let m = vec![
        (String::from("id"), FieldValue::Text(String::from("oops"))),
        (String::from("name"), FieldValue::Text(String::from("a"))),
    ];
    let back = Item::from_map(m);
    match back {
        Err(ConversionError::FieldError(field, inner)) => {
            assert_eq!(field, "id");
            assert!(matches!(*inner, ConversionError::TypeMismatch));
        }
        _ => panic!("expected a field error"),
    }
}

#[test]
fn item_decode_order_is_declaration_order() {
    let m = vec![
        (String::from("id"), FieldValue::Text(String::from("oops"))),
    ];
    let back = Item::from_map(m);
    assert!(matches!(back, Err(ConversionError::FieldError(ref f, _)) if f == "id"));
}

#[test]
fn item_as_converter_uses_mapping_variant() {
    let item = Item { id: 5, name: String::from("n") };
    let fv = item.to_field_value();
    assert!(matches!(fv, FieldValue::Mapping(_)));
    let back: Item = Item::to_primitive(fv).unwrap();
    assert_eq!(back.id, 5);
    assert_eq!(back.name, "n");
}

#[test]
fn record_type_mismatch_on_non_mapping() {
    let back: Result<Item, ConversionError> = Item::to_primitive(FieldValue::Integer(3));
    assert!(matches!(back, Err(ConversionError::TypeMismatch)));
}

#[test]
fn profile_nested_round_trip() {
    let mut m: StrMap<i64> = StrMap::new();
    m.insert(String::from("a"), 1);
    m.insert(String::from("b"), 2);
    let profile = Profile { data: Some(vec![m]) };
    let encoded = profile.to_map();
    let back = Profile::from_map(encoded).unwrap();
    let inner = back.data.expect("expected a present value");
    assert_eq!(inner.len(), 1);
    assert_eq!(inner[0].get(&String::from("a")), Some(&1));
    assert_eq!(inner[0].get(&String::from("b")), Some(&2));
}

#[test]
fn profile_absent_data_round_trip() {
    let profile = Profile { data: None };
    let encoded = profile.to_map();
    assert!(matches!(encoded[0], (ref k, FieldValue::Null) if k == "data"));
    let back = Profile::from_map(encoded).unwrap();
    assert!(back.data.is_none());
}

#[test]
fn wrapper_nests_record_in_record() {
    let w = Wrapper { item: Item { id: 9, name: String::from("nested") } };
    let m = w.to_map();
    assert!(matches!(m[0], (ref k, FieldValue::Mapping(_)) if k == "item"));
    let back = Wrapper::from_map(m).unwrap();
    assert_eq!(back.item.id, 9);
    assert_eq!(back.item.name, "nested");
}

#[test]
fn wrapper_wraps_inner_record_error() {
    let m = vec![(
        String::from("item"),
        FieldValue::Mapping(vec![(String::from("id"), FieldValue::Integer(1))]),
    )];
    let back = Wrapper::from_map(m);
    match back {
        Err(ConversionError::FieldError(field, inner)) => {
            assert_eq!(field, "item");
            assert!(matches!(*inner, ConversionError::MissingField(ref f) if f == "name"));
        }
        _ => panic!("expected a field error"),
    }
}

#[test]
fn take_entry_consumes_the_entry() {
    let mut m = vec![
        (String::from("id"), FieldValue::Integer(1)),
        (String::from("name"), FieldValue::Text(String::from("a"))),
    ];
    let taken = take_entry(&mut m, &String::from("id"));
    assert!(matches!(taken, Some(FieldValue::Integer(1))));
    assert_eq!(m.len(), 1);
    let again = take_entry(&mut m, &String::from("id"));
    assert!(again.is_none());
}
