use uniffi_kotlin::emitter::{
    dec_string, enum_class_kt, ffi_block_kt, ffi_name, foreign_call_of, function_kt,
    generate_kotlin, record_class_kt, Config, KotlinWrapper,
};
use uniffi_kotlin::errors::GenError;
use uniffi_kotlin::interface::{
    ArgumentDefinition, ComponentInterface, EnumDefinition, FieldDefinition, FunctionDefinition,
    RecordDefinition, TypeReference,
};

fn sample_interface() -> ComponentInterface {
    ComponentInterface {
        namespace: "math".to_string(),
        enums: vec![EnumDefinition {
            name: "Sign".to_string(),
            values: vec!["NEGATIVE".to_string(), "ZERO".to_string(), "POSITIVE".to_string()],
        }],
        records: vec![RecordDefinition {
            name: "Point".to_string(),
            fields: vec![
                FieldDefinition { name: "x".to_string(), type_: TypeReference::U32 },
                FieldDefinition {
                    name: "y".to_string(),
                    type_: TypeReference::Optional(Box::new(TypeReference::Boolean)),
                },
            ],
        }],
        functions: vec![FunctionDefinition {
            name: "classify".to_string(),
            arguments: vec![ArgumentDefinition {
                name: "value".to_string(),
                type_: TypeReference::U32,
            }],
            return_type: Some(TypeReference::Enum("Sign".to_string())),
        }],
        objects: Vec::new(),
    }
}

#[test]
fn decimal_rendering() {
    assert_eq!(dec_string(0), "0");
    assert_eq!(dec_string(7), "7");
    assert_eq!(dec_string(10), "10");
    assert_eq!(dec_string(12345), "12345");
}

#[test]
fn config_package_name_uses_the_namespace() {
    let ci = sample_interface();
    let config = Config::from(&ci);
    assert_eq!(config.package_name, "uniffi.math");
}

#[test]
fn ffi_names_follow_the_naming_convention() {
    assert_eq!(ffi_name("math", "classify"), "math_classify");
    assert_eq!(ffi_name("math", "bytebuffer_alloc"), "math_bytebuffer_alloc");
}

#[test]
fn enum_emission_preserves_declared_order() {
    let ci = sample_interface();
    let text = enum_class_kt(&ci.enums[0]);
    let expected = "enum class Sign {\n\
                    \x20   NEGATIVE,\n\
                    \x20   ZERO,\n\
                    \x20   POSITIVE;\n\
                    \n\
                    \x20   companion object {\n\
                    \x20       internal fun fromOrdinal(n: Int): Sign {\n\
                    \x20           return when (n) {\n\
                    \x20               1 -> NEGATIVE\n\
                    \x20               2 -> ZERO\n\
                    \x20               3 -> POSITIVE\n\
                    \x20               else -> {\n\
                    \x20                   throw RuntimeException(\"invalid enum value, something is very wrong!!\")\n\
                    \x20               }\n\
                    \x20           }\n\
                    \x20       }\n\
                    \n\
                    \x20       internal fun deserializeItemFromRust(buf: ByteBuffer): Sign {\n\
                    \x20           return fromOrdinal(buf.getInt())\n\
                    \x20       }\n\
                    \x20   }\n\
                    \n\
                    \x20   internal fun serializeForRustSize(): Int {\n\
                    \x20       return 4\n\
                    \x20   }\n\
                    \n\
                    \x20   internal fun serializeForRustInto(buf: ByteBuffer) {\n\
                    \x20       buf.putInt(this.ordinal + 1)\n\
                    \x20   }\n\
                    }\n";
    assert_eq!(text, expected);
}

#[test]
fn record_emission_mirrors_field_order() {
    let ci = sample_interface();
    let text = record_class_kt("math", &ci.records[0]).unwrap();
    assert!(text.starts_with("data class Point (\n    val x: Int,\n    val y: Boolean?\n) {\n"));
    // The deserializer reads the fields strictly in declared order.
    let deser_x = text.find("Int.deserializeItemFromRust(buf)").unwrap();
    let deser_y = text
        .find("(if (Boolean.deserializeItemFromRust(buf)) { Boolean.deserializeItemFromRust(buf) } else { null })")
        .unwrap();
    assert!(deser_x < deser_y);
    // The serializer writes them in the same order.
    let into_x = text.find("this.x.serializeForRustInto(buf)").unwrap();
    let into_y = text.find("this.y.serializeForRustInto(buf)").unwrap();
    assert!(into_x < into_y);
    // The buffer comes from the allocation entry point and is freed on the
    // failure path.
    assert!(text.contains("val buf = _UniFFILib.INSTANCE.math_bytebuffer_alloc(this.serializeForRustSize())"));
    assert!(text.contains("_UniFFILib.INSTANCE.math_bytebuffer_free(buf)"));
}

#[test]
fn function_emission_wraps_exactly_one_foreign_call() {
    let ci = sample_interface();
    let text = function_kt("math", &ci.functions[0]).unwrap();
    let expected = "fun classify(value: Int): Sign {\n\
                    \x20   val _retval = _UniFFILib.INSTANCE.math_classify(value)\n\
                    \x20   return Sign.fromOrdinal(_retval)\n\
                    }\n";
    assert_eq!(text, expected);
}

#[test]
fn function_without_return_emits_no_return_expression() {
    let f = FunctionDefinition {
        name: "reset".to_string(),
        arguments: Vec::new(),
        return_type: None,
    };
    let text = function_kt("math", &f).unwrap();
    assert_eq!(text, "fun reset() {\n    _UniFFILib.INSTANCE.math_reset()\n}\n");
}

#[test]
fn ffi_block_lists_every_entry_point() {
    let ci = sample_interface();
    let text = ffi_block_kt("math", &ci.functions).unwrap();
    assert!(text.contains("loadIndirect(componentName = \"math\")"));
    assert!(text.contains("fun math_bytebuffer_alloc(size: Int): RustBuffer.ByValue\n"));
    assert!(text.contains("fun math_bytebuffer_free(buf: RustBuffer.ByValue)\n"));
    assert!(text.contains("fun math_classify(value: Int): Int\n"));
}

#[test]
fn foreign_call_definition_maps_the_declarations() {
    let ci = sample_interface();
    let d = foreign_call_of("math", &ci.functions[0]).unwrap();
    assert_eq!(d.name, "math_classify");
    assert_eq!(d.arguments.len(), 1);
    assert_eq!(d.arguments[0].name, "value");
    assert_eq!(d.arguments[0].type_decl, "Int");
    assert_eq!(d.return_decl, Some("Int".to_string()));
}

#[test]
fn generation_is_deterministic() {
    let first = {
        let ci = sample_interface();
        let w = KotlinWrapper::new(Config::from(&ci), ci);
        w.generate().unwrap()
    };
    let second = {
        let ci = sample_interface();
        let w = KotlinWrapper::new(Config::from(&ci), ci);
        w.generate().unwrap()
    };
    assert_eq!(first, second);
    assert!(first.starts_with("package uniffi.math;\n"));
}

#[test]
fn shared_helpers_cover_every_scalar_and_optional_form() {
    let ci = sample_interface();
    let config = Config::from(&ci);
    let text = generate_kotlin(&config, &ci).unwrap();
    // One byte per boolean, fixed widths for the scalars, and one presence
    // byte per optional level, whether carried as `T?` or as
    // `java.util.Optional`.
    assert!(text.contains("public fun Boolean.serializeForRustSize(): Int {\n    return 1\n}"));
    assert!(text.contains("public fun Boolean.serializeForRustInto(buf: ByteBuffer)"));
    assert!(text.contains("public fun Long.serializeForRustSize(): Int {\n    return 8\n}"));
    assert!(text.contains("public fun<T> T?.serializeForRustSize(): Int"));
    assert!(text.contains("public fun<T> java.util.Optional<T>.serializeForRustSize(): Int"));
    assert!(text.contains("public fun<T> java.util.Optional<T>.serializeForRustInto(buf: ByteBuffer)"));
}

#[test]
fn generation_fails_on_an_object_reference_and_names_the_item() {
    let mut ci = sample_interface();
    ci.records[0].fields.push(FieldDefinition {
        name: "session".to_string(),
        type_: TypeReference::Object("Session".to_string()),
    });
    let config = Config::from(&ci);
    let err = generate_kotlin(&config, &ci).unwrap_err();
    assert_eq!(
        err,
        GenError::UnsupportedTypeInItem {
            item: "Point".to_string(),
            unsupported: TypeReference::Object("Session".to_string()),
        }
    );
}

#[test]
fn generation_reports_the_first_failing_item_in_emission_order() {
    // Both a function argument and a record field reference an object; the
    // foreign-call interface block is emitted first, so the function is
    // the item reported.
    let mut ci = sample_interface();
    ci.records[0].fields.push(FieldDefinition {
        name: "session".to_string(),
        type_: TypeReference::Object("Session".to_string()),
    });
    ci.functions[0].arguments.push(ArgumentDefinition {
        name: "peer".to_string(),
        type_: TypeReference::Object("Peer".to_string()),
    });
    let config = Config::from(&ci);
    let err = generate_kotlin(&config, &ci).unwrap_err();
    assert_eq!(
        err,
        GenError::UnsupportedTypeInItem {
            item: "classify".to_string(),
            unsupported: TypeReference::Object("Peer".to_string()),
        }
    );
}

#[test]
fn generated_text_contains_each_declaration_once() {
    let ci = sample_interface();
    let config = Config::from(&ci);
    let text = generate_kotlin(&config, &ci).unwrap();
    assert_eq!(text.matches("enum class Sign {").count(), 1);
    assert_eq!(text.matches("data class Point (").count(), 1);
    assert_eq!(text.matches("fun classify(value: Int): Sign {").count(), 1);
    assert_eq!(text.matches("internal interface _UniFFILib : Library {").count(), 1);
}
