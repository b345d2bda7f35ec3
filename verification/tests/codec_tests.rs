use uniffi_kotlin::codec::{
    compute_size, decode_from_bytes, encode_to_bytes, lift_boolean, lift_enum_value,
    lower_boolean, lower_enum_value, Value,
};
use uniffi_kotlin::errors::CodecError;
use uniffi_kotlin::interface::{
    ComponentInterface, EnumDefinition, FieldDefinition, RecordDefinition, TypeReference,
};

fn empty_interface() -> ComponentInterface {
    ComponentInterface {
        namespace: "math".to_string(),
        enums: Vec::new(),
        records: Vec::new(),
        functions: Vec::new(),
        objects: Vec::new(),
    }
}

fn point_interface() -> ComponentInterface {
    let mut ci = empty_interface();
    ci.records.push(RecordDefinition {
        name: "Point".to_string(),
        fields: vec![
            FieldDefinition { name: "x".to_string(), type_: TypeReference::U32 },
            FieldDefinition {
                name: "y".to_string(),
                type_: TypeReference::Optional(Box::new(TypeReference::Boolean)),
            },
        ],
    });
    ci
}

#[test]
fn round_trip_nested_optional_some_none() {
    let ci = empty_interface();
    let t = TypeReference::Optional(Box::new(TypeReference::Optional(Box::new(
        TypeReference::U32,
    ))));
    let v = Value::Present(Box::new(Value::Absent));
    let bytes = encode_to_bytes(&ci, &t, &v).unwrap();
    assert_eq!(bytes, vec![1u8, 0u8]);
    let back = decode_from_bytes(&ci, &t, &bytes).unwrap();
    assert_eq!(back, v);
}

#[test]
fn round_trip_nested_optional_some_some_7() {
    let ci = empty_interface();
    let t = TypeReference::Optional(Box::new(TypeReference::Optional(Box::new(
        TypeReference::U32,
    ))));
    let v = Value::Present(Box::new(Value::Present(Box::new(Value::U32(7)))));
    let bytes = encode_to_bytes(&ci, &t, &v).unwrap();
    assert_eq!(bytes, vec![1u8, 1u8, 0u8, 0u8, 0u8, 7u8]);
    let back = decode_from_bytes(&ci, &t, &bytes).unwrap();
    assert_eq!(back, v);
}

#[test]
fn round_trip_nested_optional_none() {
    let ci = empty_interface();
    let t = TypeReference::Optional(Box::new(TypeReference::Optional(Box::new(
        TypeReference::U32,
    ))));
    let v = Value::Absent;
    let bytes = encode_to_bytes(&ci, &t, &v).unwrap();
    assert_eq!(bytes, vec![0u8]);
    let back = decode_from_bytes(&ci, &t, &bytes).unwrap();
    assert_eq!(back, v);
}

#[test]
fn round_trip_scalars_and_float_bits() {
    let ci = empty_interface();
    let cases: Vec<(TypeReference, Value)> = vec![
        (TypeReference::Boolean, Value::Boolean(true)),
        (TypeReference::Boolean, Value::Boolean(false)),
        (TypeReference::U32, Value::U32(0xDEADBEEF)),
        (TypeReference::U64, Value::U64(0x0123_4567_89AB_CDEF)),
        (TypeReference::Float, Value::Float(1.5f32.to_bits())),
        (TypeReference::Double, Value::Double(2.25f64.to_bits())),
    ];
    for (t, v) in cases {
        let bytes = encode_to_bytes(&ci, &t, &v).unwrap();
        let back = decode_from_bytes(&ci, &t, &bytes).unwrap();
        assert_eq!(back, v);
    }
}

#[test]
fn float_wire_layout_is_ieee_754_big_endian() {
    let ci = empty_interface();
    let v = Value::Float(1.5f32.to_bits());
    let bytes = encode_to_bytes(&ci, &TypeReference::Float, &v).unwrap();
    assert_eq!(bytes, 1.5f32.to_be_bytes().to_vec());
    let v = Value::Double((-0.1f64).to_bits());
    let bytes = encode_to_bytes(&ci, &TypeReference::Double, &v).unwrap();
    assert_eq!(bytes, (-0.1f64).to_be_bytes().to_vec());
}

#[test]
fn size_matches_encoded_length() {
    let ci = point_interface();
    let t = TypeReference::Record("Point".to_string());
    let v = Value::Record(vec![
        Value::U32(42),
        Value::Present(Box::new(Value::Boolean(true))),
    ]);
    let size = compute_size(&v);
    let bytes = encode_to_bytes(&ci, &t, &v).unwrap();
    assert_eq!(size, bytes.len());
    assert_eq!(size, 6);
}

#[test]
fn record_field_order_exact_bytes() {
    let ci = point_interface();
    let t = TypeReference::Record("Point".to_string());
    let v = Value::Record(vec![Value::U32(42), Value::Absent]);
    let bytes = encode_to_bytes(&ci, &t, &v).unwrap();
    assert_eq!(bytes, vec![0u8, 0u8, 0u8, 42u8, 0u8]);
    let back = decode_from_bytes(&ci, &t, &bytes).unwrap();
    assert_eq!(back, v);
}

#[test]
fn enum_ordinal_stability() {
    let e = EnumDefinition {
        name: "Letter".to_string(),
        values: vec!["A".to_string(), "B".to_string(), "C".to_string()],
    };
    // Lowering B (position 1) yields the 1-based ordinal 2.
    assert_eq!(lower_enum_value(&e, 1), Ok(2));
    // Lifting ordinal 2 yields B (position 1).
    assert_eq!(lift_enum_value(&e, 2), Ok(1));
    // Ordinals outside the declared range are fatal.
    assert_eq!(lift_enum_value(&e, 0), Err(CodecError::OrdinalOutOfRange));
    assert_eq!(lift_enum_value(&e, 4), Err(CodecError::OrdinalOutOfRange));
    // A position outside the declared values has no wire form.
    assert_eq!(lower_enum_value(&e, 3), Err(CodecError::Unencodable));
}

#[test]
fn enum_wire_form_through_buffers() {
    let mut ci = empty_interface();
    ci.enums.push(EnumDefinition {
        name: "Letter".to_string(),
        values: vec!["A".to_string(), "B".to_string(), "C".to_string()],
    });
    let t = TypeReference::Enum("Letter".to_string());
    let bytes = encode_to_bytes(&ci, &t, &Value::Enum(1)).unwrap();
    assert_eq!(bytes, vec![0u8, 0u8, 0u8, 2u8]);
    assert_eq!(decode_from_bytes(&ci, &t, &bytes), Ok(Value::Enum(1)));
    // Ordinal 0 and ordinal 4 on the wire do not decode.
    assert_eq!(
        decode_from_bytes(&ci, &t, &vec![0u8, 0u8, 0u8, 0u8]),
        Err(CodecError::MalformedBuffer)
    );
    assert_eq!(
        decode_from_bytes(&ci, &t, &vec![0u8, 0u8, 0u8, 4u8]),
        Err(CodecError::MalformedBuffer)
    );
}

#[test]
fn boolean_scalar_lowering() {
    assert_eq!(lower_boolean(true), 1u8);
    assert_eq!(lower_boolean(false), 0u8);
    assert!(lift_boolean(1));
    assert!(lift_boolean(255));
    assert!(!lift_boolean(0));
}

#[test]
fn trailing_bytes_are_fatal() {
    let ci = empty_interface();
    let t = TypeReference::U32;
    let bytes = vec![0u8, 0u8, 0u8, 7u8, 99u8];
    assert_eq!(decode_from_bytes(&ci, &t, &bytes), Err(CodecError::TrailingBytes));
}

#[test]
fn short_buffer_is_malformed() {
    let ci = empty_interface();
    assert_eq!(
        decode_from_bytes(&ci, &TypeReference::U32, &vec![1u8, 2u8]),
        Err(CodecError::MalformedBuffer)
    );
    assert_eq!(
        decode_from_bytes(&ci, &TypeReference::Boolean, &Vec::new()),
        Err(CodecError::MalformedBuffer)
    );
}

#[test]
fn unsupported_types_have_no_encoding() {
    let ci = empty_interface();
    assert_eq!(
        encode_to_bytes(&ci, &TypeReference::Bytes, &Value::U32(1)),
        Err(CodecError::Unencodable)
    );
    assert_eq!(
        encode_to_bytes(&ci, &TypeReference::Object("Session".to_string()), &Value::Absent),
        Err(CodecError::Unencodable)
    );
    // A value of the wrong shape for the schema type has no encoding either.
    assert_eq!(
        encode_to_bytes(&ci, &TypeReference::U32, &Value::Boolean(true)),
        Err(CodecError::Unencodable)
    );
}
