use uniffi_kotlin::interface::{
    ComponentInterface, EnumDefinition, FieldDefinition, RecordDefinition, TypeReference,
};

fn sample() -> ComponentInterface {
    ComponentInterface {
        namespace: "math".to_string(),
        enums: vec![
            EnumDefinition {
                name: "Sign".to_string(),
                values: vec!["NEGATIVE".to_string(), "POSITIVE".to_string()],
            },
            EnumDefinition {
                name: "Parity".to_string(),
                values: vec!["EVEN".to_string(), "ODD".to_string()],
            },
        ],
        records: vec![RecordDefinition {
            name: "Point".to_string(),
            fields: vec![FieldDefinition { name: "x".to_string(), type_: TypeReference::U32 }],
        }],
        functions: Vec::new(),
        objects: Vec::new(),
    }
}

#[test]
fn namespace_is_exposed() {
    let ci = sample();
    assert_eq!(ci.namespace(), "math");
}

#[test]
fn lookups_find_definitions_by_name() {
    let ci = sample();
    let parity = ci.find_enum(&"Parity".to_string()).unwrap();
    assert_eq!(parity.values, vec!["EVEN".to_string(), "ODD".to_string()]);
    let point = ci.find_record(&"Point".to_string()).unwrap();
    assert_eq!(point.fields.len(), 1);
    assert!(ci.find_enum(&"Color".to_string()).is_none());
    assert!(ci.find_record(&"Line".to_string()).is_none());
}
