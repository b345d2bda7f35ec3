use uniffi_kotlin::errors::GenError;
use uniffi_kotlin::filters::{
    decl_c_argument, decl_c_return, decl_kt, deserialize_item_kt, lift_kt, lower_kt,
};
use uniffi_kotlin::interface::TypeReference;

fn opt(t: TypeReference) -> TypeReference {
    TypeReference::Optional(Box::new(t))
}

#[test]
fn c_argument_declarations() {
    assert_eq!(decl_c_argument(&TypeReference::Boolean).unwrap(), "Byte");
    assert_eq!(decl_c_argument(&TypeReference::U32).unwrap(), "Int");
    assert_eq!(decl_c_argument(&TypeReference::U64).unwrap(), "Long");
    assert_eq!(decl_c_argument(&TypeReference::Float).unwrap(), "Float");
    assert_eq!(decl_c_argument(&TypeReference::Double).unwrap(), "Double");
    assert_eq!(decl_c_argument(&TypeReference::String).unwrap(), "String");
    assert_eq!(decl_c_argument(&TypeReference::Bytes).unwrap(), "RustBuffer.ByValue");
    assert_eq!(
        decl_c_argument(&TypeReference::Enum("Color".to_string())).unwrap(),
        "Int"
    );
    assert_eq!(
        decl_c_argument(&TypeReference::Record("Point".to_string())).unwrap(),
        "RustBuffer.ByValue"
    );
    assert_eq!(
        decl_c_argument(&opt(TypeReference::U32)).unwrap(),
        "RustBuffer.ByValue"
    );
}

#[test]
fn c_argument_rejects_objects() {
    let obj = TypeReference::Object("Session".to_string());
    assert_eq!(
        decl_c_argument(&obj),
        Err(GenError::UnsupportedType { unsupported: TypeReference::Object("Session".to_string()) })
    );
}

#[test]
fn c_return_matches_argument_mapping() {
    assert_eq!(decl_c_return(&TypeReference::String).unwrap(), "String");
    assert_eq!(decl_c_return(&TypeReference::Boolean).unwrap(), "Byte");
    assert_eq!(
        decl_c_return(&TypeReference::Record("Point".to_string())).unwrap(),
        "RustBuffer.ByValue"
    );
}

#[test]
fn kotlin_declarations() {
    assert_eq!(decl_kt(&TypeReference::Boolean).unwrap(), "Boolean");
    assert_eq!(decl_kt(&TypeReference::U32).unwrap(), "Int");
    assert_eq!(decl_kt(&TypeReference::Enum("Color".to_string())).unwrap(), "Color");
    assert_eq!(decl_kt(&TypeReference::Record("Point".to_string())).unwrap(), "Point");
    assert_eq!(decl_kt(&opt(TypeReference::U32)).unwrap(), "Int?");
}

#[test]
fn nested_optionals_stay_distinct_in_the_host_type() {
    // Kotlin's `T??` is the same type as `T?`, so inner optional levels
    // are carried as `java.util.Optional`.
    assert_eq!(
        decl_kt(&opt(opt(TypeReference::U32))).unwrap(),
        "java.util.Optional<Int>?"
    );
    assert_eq!(
        decl_kt(&opt(opt(opt(TypeReference::Enum("Color".to_string()))))).unwrap(),
        "java.util.Optional<java.util.Optional<Color>>?"
    );
}

#[test]
fn kotlin_declaration_reports_nested_object() {
    let t = opt(TypeReference::Object("Session".to_string()));
    assert_eq!(
        decl_kt(&t),
        Err(GenError::UnsupportedType { unsupported: TypeReference::Object("Session".to_string()) })
    );
}

#[test]
fn lowering_expressions() {
    assert_eq!(
        lower_kt("v", &TypeReference::Boolean).unwrap(),
        "(if (v) { 1 } else { 0 })"
    );
    assert_eq!(lower_kt("v", &TypeReference::U32).unwrap(), "v");
    assert_eq!(lower_kt("v", &TypeReference::String).unwrap(), "v");
    assert_eq!(
        lower_kt("v", &TypeReference::Enum("Color".to_string())).unwrap(),
        "(v.ordinal + 1)"
    );
    assert_eq!(
        lower_kt("v", &TypeReference::Record("Point".to_string())).unwrap(),
        "v.serializeForRust()"
    );
    assert_eq!(
        lower_kt("v", &opt(TypeReference::U32)).unwrap(),
        "v.serializeForRust()"
    );
}

#[test]
fn lifting_expressions() {
    assert_eq!(lift_kt("x", &TypeReference::Boolean).unwrap(), "(x != 0)");
    assert_eq!(lift_kt("x", &TypeReference::U64).unwrap(), "x");
    assert_eq!(
        lift_kt("x", &TypeReference::Enum("Color".to_string())).unwrap(),
        "Color.fromOrdinal(x)"
    );
    assert_eq!(
        lift_kt("x", &TypeReference::Record("Point".to_string())).unwrap(),
        "deserializeFromRust(x) { buf -> Point.deserializeItemFromRust(buf) }"
    );
    assert_eq!(
        lift_kt("x", &opt(TypeReference::U32)).unwrap(),
        "deserializeFromRust(x) { buf -> (if (Boolean.deserializeItemFromRust(buf)) { Int.deserializeItemFromRust(buf) } else { null }) }"
    );
}

#[test]
fn lifting_bytes_decodes_the_received_buffer() {
    assert_eq!(
        lift_kt("x", &TypeReference::Bytes).unwrap(),
        "deserializeFromRust(x) { buf -> RustBuffer.ByValue.deserializeItemFromRust(buf) }"
    );
}

#[test]
fn lifting_rejects_objects() {
    assert_eq!(
        lift_kt("x", &TypeReference::Object("Session".to_string())),
        Err(GenError::UnsupportedType { unsupported: TypeReference::Object("Session".to_string()) })
    );
}

#[test]
fn deserialize_expressions() {
    assert_eq!(
        deserialize_item_kt("buf", &TypeReference::U32).unwrap(),
        "Int.deserializeItemFromRust(buf)"
    );
    assert_eq!(
        deserialize_item_kt("buf", &opt(TypeReference::Boolean)).unwrap(),
        "(if (Boolean.deserializeItemFromRust(buf)) { Boolean.deserializeItemFromRust(buf) } else { null })"
    );
    assert_eq!(
        deserialize_item_kt("buf", &TypeReference::Record("Point".to_string())).unwrap(),
        "Point.deserializeItemFromRust(buf)"
    );
}

#[test]
fn nested_optional_decoder_mirrors_the_nesting_depth() {
    // One presence byte per level: absent outer yields null, present outer
    // with absent inner yields an empty java.util.Optional, and a present
    // inner wraps the value — the three wire forms stay distinct.
    assert_eq!(
        deserialize_item_kt("buf", &opt(opt(TypeReference::U32))).unwrap(),
        "(if (Boolean.deserializeItemFromRust(buf)) { \
         (if (Boolean.deserializeItemFromRust(buf)) { \
         java.util.Optional.of(Int.deserializeItemFromRust(buf)) } else { \
         java.util.Optional.empty() }) } else { null })"
    );
}
