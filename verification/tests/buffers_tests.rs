use uniffi_kotlin::buffers::{lift_via_buffer, lower_via_buffer, BufferHost};
use uniffi_kotlin::codec::Value;
use uniffi_kotlin::errors::CodecError;
use uniffi_kotlin::interface::{
    ComponentInterface, FieldDefinition, RecordDefinition, TypeReference,
};

fn interface_with(rec: RecordDefinition) -> ComponentInterface {
    ComponentInterface {
        namespace: "math".to_string(),
        enums: Vec::new(),
        records: vec![rec],
        functions: Vec::new(),
        objects: Vec::new(),
    }
}

#[test]
fn successful_lower_and_lift_balance_the_allocations() {
    let ci = interface_with(RecordDefinition {
        name: "Point".to_string(),
        fields: vec![
            FieldDefinition { name: "x".to_string(), type_: TypeReference::U32 },
            FieldDefinition {
                name: "y".to_string(),
                type_: TypeReference::Optional(Box::new(TypeReference::Boolean)),
            },
        ],
    });
    let t = TypeReference::Record("Point".to_string());
    let v = Value::Record(vec![Value::U32(42), Value::Absent]);

    let mut host = BufferHost::new();
    assert_eq!(host.live_count(), 0);
    let id = lower_via_buffer(&mut host, &ci, &t, &v).unwrap();
    assert_eq!(host.live_count(), 1);
    let back = lift_via_buffer(&mut host, &ci, &t, id).unwrap();
    assert_eq!(back, v);
    assert_eq!(host.live_count(), 0);
}

#[test]
fn encode_failure_mid_record_frees_the_buffer() {
    // The second field's type has no buffer encoding, so encoding fails
    // after the first field was already written.
    let ci = interface_with(RecordDefinition {
        name: "Mixed".to_string(),
        fields: vec![
            FieldDefinition { name: "a".to_string(), type_: TypeReference::U32 },
            FieldDefinition { name: "b".to_string(), type_: TypeReference::Bytes },
        ],
    });
    let t = TypeReference::Record("Mixed".to_string());
    let v = Value::Record(vec![Value::U32(7), Value::Boolean(true)]);

    let mut host = BufferHost::new();
    let r = lower_via_buffer(&mut host, &ci, &t, &v);
    assert_eq!(r, Err(CodecError::Unencodable));
    // Exactly one free for the one allocation: nothing leaked.
    assert_eq!(host.live_count(), 0);
}

#[test]
fn lift_frees_even_when_the_buffer_is_malformed() {
    let ci = interface_with(RecordDefinition {
        name: "Point".to_string(),
        fields: vec![FieldDefinition { name: "x".to_string(), type_: TypeReference::U32 }],
    });
    let t = TypeReference::Record("Point".to_string());

    // A buffer that is too short for the schema.
    let mut host = BufferHost::new();
    let id = host.allocate(2);
    assert_eq!(host.live_count(), 1);
    assert_eq!(
        lift_via_buffer(&mut host, &ci, &t, id),
        Err(CodecError::MalformedBuffer)
    );
    assert_eq!(host.live_count(), 0);

    // A buffer with trailing bytes after the record.
    let id = host.allocate(6);
    assert_eq!(host.live_count(), 1);
    assert_eq!(
        lift_via_buffer(&mut host, &ci, &t, id),
        Err(CodecError::TrailingBytes)
    );
    assert_eq!(host.live_count(), 0);
}
