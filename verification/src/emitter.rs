//! The surface emitter: assembles the declaration mapper, the
//! lowering/lifting engine and the buffer protocol helpers into complete
//! Kotlin declarations — one enum class, data class or function wrapper
//! per interface item, plus the foreign-call interface block and the shared
//! helper code.
//!
//! Generation is a pure transform: the emitted text is a function of the
//! interface model alone, so identical models yield byte-identical output.

use vstd::prelude::*;
use crate::errors::GenError;
use crate::filters::{
    base_type, c_mappable, decl_c_argument, decl_c_return, decl_kt,
    deserialize_item_kt, kt_declarable, lift_kt, lower_kt, spec_decl_c_argument,
    spec_decl_c_return, spec_decl_kt, spec_deserialize_item_kt, spec_lift_kt, spec_lower_kt,
};
use crate::interface::{
    ArgumentDefinition, ComponentInterface, EnumDefinition, FieldDefinition, FunctionDefinition,
    RecordDefinition, TypeReference,
};

verus! {

// ---------------------------------------------------------------------------
// Decimal rendering for ordinals.
// ---------------------------------------------------------------------------

/// The decimal digit character for `d` (meaningful for `d < 10`).
pub open spec fn digit_rep(d: nat) -> Seq<char> {
    if d == 0 {
        "0"@
    } else if d == 1 {
        "1"@
    } else if d == 2 {
        "2"@
    } else if d == 3 {
        "3"@
    } else if d == 4 {
        "4"@
    } else if d == 5 {
        "5"@
    } else if d == 6 {
        "6"@
    } else if d == 7 {
        "7"@
    } else if d == 8 {
        "8"@
    } else {
        "9"@
    }
}

/// The decimal rendering of `n`, most significant digit first.
pub open spec fn dec_rep(n: nat) -> Seq<char>
    decreases n,
{
    if n < 10 {
        digit_rep(n)
    } else {
        dec_rep(n / 10) + digit_rep(n % 10)
    }
}

/// The decimal digit character for `d`.
fn digit_str(d: usize) -> (r: &'static str)
    requires
        d < 10,
    ensures
        r@ == digit_rep(d as nat),
{
    match d {
        0 => "0",
        1 => "1",
        2 => "2",
        3 => "3",
        4 => "4",
        5 => "5",
        6 => "6",
        7 => "7",
        8 => "8",
        _ => "9",
    }
}

/// Renders `n` in decimal.
pub fn dec_string(n: usize) -> (s: String)
    ensures
        s@ == dec_rep(n as nat),
    decreases n,
{
    if n < 10 {
        String::from_str(digit_str(n))
    } else {
        dec_string(n / 10).concat(digit_str(n % 10))
    }
}

// ---------------------------------------------------------------------------
// Generator configuration.
// ---------------------------------------------------------------------------

/// Options a caller may use to customize the generated Kotlin. They can
/// only control details that do not affect the underlying component: the
/// component's own binary contract is determined entirely by the interface
/// model.
pub struct Config {
    pub package_name: String,
}

impl Config {
    /// The default configuration for an interface: the package is named
    /// after the component's namespace.
    pub fn from(ci: &ComponentInterface) -> (c: Config)
        ensures
            c.package_name@ == "uniffi."@ + ci.namespace@,
    {
        Config { package_name: String::from_str("uniffi.").concat(ci.namespace.as_str()) }
    }
}

// ---------------------------------------------------------------------------
// Names of the native entry points.
// ---------------------------------------------------------------------------

/// The native symbol for an interface function: the namespace and the
/// function's name.
pub open spec fn spec_ffi_name(ns: Seq<char>, fname: Seq<char>) -> Seq<char> {
    ns + "_"@ + fname
}

/// The native symbol of the buffer-allocation entry point.
pub open spec fn spec_alloc_name(ns: Seq<char>) -> Seq<char> {
    spec_ffi_name(ns, "bytebuffer_alloc"@)
}

/// The native symbol of the buffer-free entry point.
pub open spec fn spec_free_name(ns: Seq<char>) -> Seq<char> {
    spec_ffi_name(ns, "bytebuffer_free"@)
}

/// Renders the native symbol for an interface function.
pub fn ffi_name(ns: &str, fname: &str) -> (r: String)
    ensures
        r@ == spec_ffi_name(ns@, fname@),
{
    String::from_str(ns).concat("_").concat(fname)
}

// ---------------------------------------------------------------------------
// Enum emission.
// ---------------------------------------------------------------------------

/// The lines declaring the enum's values, in declared order, the last one
/// closing the list.
pub open spec fn spec_enum_value_lines(values: Seq<String>) -> Seq<char>
    decreases values.len(),
{
    if values.len() == 0 {
        Seq::empty()
    } else if values.len() == 1 {
        "    "@ + values[0]@ + ";\n"@
    } else {
        "    "@ + values[0]@ + ",\n"@ + spec_enum_value_lines(values.drop_first())
    }
}

/// The `when` arms mapping each 1-based ordinal back to its value, the
/// first one carrying the ordinal `next`.
pub open spec fn spec_enum_ordinal_lines(values: Seq<String>, next: nat) -> Seq<char>
    decreases values.len(),
{
    if values.len() == 0 {
        Seq::empty()
    } else {
        "                "@ + dec_rep(next) + " -> "@ + values[0]@ + "\n"@
            + spec_enum_ordinal_lines(values.drop_first(), next + 1)
    }
}

/// The complete Kotlin enum class for a definition: the values in declared
/// order, a `fromOrdinal` companion that maps each declared 1-based
/// ordinal back to its value and treats every other ordinal as a fatal
/// runtime failure, and the buffer-codec members that read and write the
/// value as its 4-byte big-endian 1-based ordinal.
pub open spec fn spec_enum_class_kt(e: EnumDefinition) -> Seq<char> {
    "enum class "@ + e.name@ + " {\n"@ + spec_enum_value_lines(e.values@) + "\n"@
        + "    companion object {\n"@ + "        internal fun fromOrdinal(n: Int): "@ + e.name@
        + " {\n"@ + "            return when (n) {\n"@ + spec_enum_ordinal_lines(e.values@, 1)
        + "                else -> {\n"@
        + "                    throw RuntimeException(\"invalid enum value, something is very wrong!!\")\n"@
        + "                }\n"@ + "            }\n"@ + "        }\n"@
        + "\n        internal fun deserializeItemFromRust(buf: ByteBuffer): "@ + e.name@
        + " {\n"@ + "            return fromOrdinal(buf.getInt())\n"@ + "        }\n"@
        + "    }\n"@ + "\n    internal fun serializeForRustSize(): Int {\n"@
        + "        return 4\n"@ + "    }\n"@
        + "\n    internal fun serializeForRustInto(buf: ByteBuffer) {\n"@
        + "        buf.putInt(this.ordinal + 1)\n"@ + "    }\n"@ + "}\n"@
}

/// Renders the value lines of `values` from position `i` on.
fn enum_value_lines(values: &Vec<String>, i: usize) -> (s: String)
    requires
        i <= values@.len(),
    ensures
        s@ == spec_enum_value_lines(values@.skip(i as int)),
    decreases values@.len() - i,
{
    let ghost tail = values@.skip(i as int);
    if i == values.len() {
        proof {
            assert(tail =~= Seq::<String>::empty());
        }
        String::new()
    } else {
        proof {
            assert(tail[0] == values@[i as int]);
            assert(tail.drop_first() =~= values@.skip(i as int + 1));
        }
        if i + 1 == values.len() {
            String::from_str("    ").concat(values[i].as_str()).concat(";\n")
        } else {
            let rest = enum_value_lines(values, i + 1);
            String::from_str("    ").concat(values[i].as_str()).concat(",\n").concat(rest.as_str())
        }
    }
}

/// Renders the ordinal arms of `values` from position `i` on; the arm for
/// position `i` carries the ordinal `i + 1`.
fn enum_ordinal_lines(values: &Vec<String>, i: usize) -> (s: String)
    requires
        i <= values@.len(),
    ensures
        s@ == spec_enum_ordinal_lines(values@.skip(i as int), i as nat + 1),
    decreases values@.len() - i,
{
    let ghost tail = values@.skip(i as int);
    if i == values.len() {
        proof {
            assert(tail =~= Seq::<String>::empty());
        }
        String::new()
    } else {
        proof {
            assert(tail[0] == values@[i as int]);
            assert(tail.drop_first() =~= values@.skip(i as int + 1));
        }
        let ordinal = dec_string(i + 1);
        let rest = enum_ordinal_lines(values, i + 1);
        String::from_str("                ").concat(ordinal.as_str()).concat(" -> ").concat(
            values[i].as_str(),
        ).concat("\n").concat(rest.as_str())
    }
}

/// Renders the complete Kotlin enum class for a definition. Enum emission
/// preserves the declared value order as the ordinal mapping, and the
/// codec members match the wire format: a 4-byte big-endian 1-based
/// ordinal.
pub fn enum_class_kt(e: &EnumDefinition) -> (s: String)
    ensures
        s@ == spec_enum_class_kt(*e),
{
    proof {
        assert(e.values@.skip(0) =~= e.values@);
    }
    String::from_str("enum class ").concat(e.name.as_str()).concat(" {\n").concat(
        enum_value_lines(&e.values, 0).as_str(),
    ).concat("\n").concat("    companion object {\n").concat(
        "        internal fun fromOrdinal(n: Int): ",
    ).concat(e.name.as_str()).concat(" {\n").concat("            return when (n) {\n").concat(
        enum_ordinal_lines(&e.values, 0).as_str(),
    ).concat("                else -> {\n").concat(
        "                    throw RuntimeException(\"invalid enum value, something is very wrong!!\")\n",
    ).concat("                }\n").concat("            }\n").concat("        }\n").concat(
        "\n        internal fun deserializeItemFromRust(buf: ByteBuffer): ",
    ).concat(e.name.as_str()).concat(" {\n").concat(
        "            return fromOrdinal(buf.getInt())\n",
    ).concat("        }\n").concat("    }\n").concat(
        "\n    internal fun serializeForRustSize(): Int {\n",
    ).concat("        return 4\n").concat("    }\n").concat(
        "\n    internal fun serializeForRustInto(buf: ByteBuffer) {\n",
    ).concat("        buf.putInt(this.ordinal + 1)\n").concat("    }\n").concat("}\n")
}

// ---------------------------------------------------------------------------
// Record emission.
// ---------------------------------------------------------------------------

/// Whether every field's type has a Kotlin declaration.
pub open spec fn fields_declarable(fields: Seq<FieldDefinition>) -> bool {
    forall|i: int| 0 <= i < fields.len() ==> kt_declarable((#[trigger] fields[i]).type_)
}

/// The unsupported base type of the first field without a Kotlin
/// declaration (meaningful when some field has none).
pub open spec fn first_undeclarable_field(fields: Seq<FieldDefinition>) -> TypeReference
    decreases fields.len(),
{
    if fields.len() == 0 {
        TypeReference::Boolean
    } else if !kt_declarable(fields[0].type_) {
        base_type(fields[0].type_)
    } else {
        first_undeclarable_field(fields.drop_first())
    }
}

/// Declarability of a head field and of the tail passes to the whole
/// sequence.
proof fn lemma_fields_declarable_cons(fields: Seq<FieldDefinition>)
    requires
        fields.len() > 0,
        kt_declarable(fields[0].type_),
        fields_declarable(fields.drop_first()),
    ensures
        fields_declarable(fields),
{
    assert forall|j: int| 0 <= j < fields.len() implies kt_declarable(
        (#[trigger] fields[j]).type_,
    ) by {
        if j > 0 {
            assert(fields.drop_first()[j - 1] == fields[j]);
            assert(kt_declarable(fields.drop_first()[j - 1].type_));
        }
    }
}

/// The constructor-parameter lines of the data class, one per field in
/// declared order.
pub open spec fn spec_record_field_decls(fields: Seq<FieldDefinition>) -> Seq<char>
    decreases fields.len(),
{
    if fields.len() == 0 {
        Seq::empty()
    } else if fields.len() == 1 {
        "    val "@ + fields[0].name@ + ": "@ + spec_decl_kt(fields[0].type_) + "\n"@
    } else {
        "    val "@ + fields[0].name@ + ": "@ + spec_decl_kt(fields[0].type_) + ",\n"@
            + spec_record_field_decls(fields.drop_first())
    }
}

/// The deserializer arguments, one per field, strictly in declared order:
/// the reader mirrors the writer exactly.
pub open spec fn spec_record_deser_items(fields: Seq<FieldDefinition>) -> Seq<char>
    decreases fields.len(),
{
    if fields.len() == 0 {
        Seq::empty()
    } else if fields.len() == 1 {
        "                "@ + spec_deserialize_item_kt("buf"@, fields[0].type_) + "\n"@
    } else {
        "                "@ + spec_deserialize_item_kt("buf"@, fields[0].type_) + ",\n"@
            + spec_record_deser_items(fields.drop_first())
    }
}

/// The summands of the record's size computation, one per field.
pub open spec fn spec_record_size_terms(fields: Seq<FieldDefinition>) -> Seq<char>
    decreases fields.len(),
{
    if fields.len() == 0 {
        Seq::empty()
    } else {
        " +\n            this."@ + fields[0].name@ + ".serializeForRustSize()"@
            + spec_record_size_terms(fields.drop_first())
    }
}

/// The serializer statements, one per field in declared order.
pub open spec fn spec_record_into_lines(fields: Seq<FieldDefinition>) -> Seq<char>
    decreases fields.len(),
{
    if fields.len() == 0 {
        Seq::empty()
    } else {
        "        this."@ + fields[0].name@ + ".serializeForRustInto(buf)\n"@
            + spec_record_into_lines(fields.drop_first())
    }
}

/// The complete Kotlin data class for a record definition: the fields in
/// declared order, a deserializer that reads them back in the same order,
/// a serializer writing them in that order, the size computation, and the
/// buffer acquisition that frees the buffer if serialization fails after
/// allocation.
pub open spec fn spec_record_class_kt(ns: Seq<char>, rec: RecordDefinition) -> Seq<char> {
    "data class "@ + rec.name@ + " (\n"@ + spec_record_field_decls(rec.fields@) + ") {\n"@
        + "    companion object {\n"@
        + "        internal fun deserializeItemFromRust(buf: ByteBuffer): "@ + rec.name@ + " {\n"@
        + "            return "@ + rec.name@ + "(\n"@ + spec_record_deser_items(rec.fields@)
        + "            )\n"@ + "        }\n"@ + "    }\n\n"@
        + "    internal fun serializeForRust(): RustBuffer.ByValue {\n"@
        + "        val buf = _UniFFILib.INSTANCE."@ + spec_alloc_name(ns)
        + "(this.serializeForRustSize())\n"@ + "        try {\n"@
        + "            this.serializeForRustInto(buf.asByteBuffer()!!)\n"@
        + "            return buf\n"@ + "        } catch (e: Throwable) {\n"@
        + "            _UniFFILib.INSTANCE."@ + spec_free_name(ns) + "(buf)\n"@
        + "            throw e\n"@ + "        }\n"@ + "    }\n\n"@
        + "    internal fun serializeForRustSize(): Int {\n"@ + "        return 0"@
        + spec_record_size_terms(rec.fields@) + "\n"@ + "    }\n\n"@
        + "    internal fun serializeForRustInto(buf: ByteBuffer) {\n"@
        + spec_record_into_lines(rec.fields@) + "    }\n"@ + "}\n"@
}

/// Renders the constructor-parameter lines of `fields` from position `i`
/// on, or fails on the first field without a Kotlin declaration.
fn record_field_decls(fields: &Vec<FieldDefinition>, i: usize) -> (r: Result<String, GenError>)
    requires
        i <= fields@.len(),
    ensures
        match r {
            Ok(s) => fields_declarable(fields@.skip(i as int)) && s@ == spec_record_field_decls(
                fields@.skip(i as int),
            ),
            Err(e) => !fields_declarable(fields@.skip(i as int)) && e
                == (GenError::UnsupportedType {
                unsupported: first_undeclarable_field(fields@.skip(i as int)),
            }),
        },
    decreases fields@.len() - i,
{
    let ghost tail = fields@.skip(i as int);
    if i == fields.len() {
        proof {
            assert(tail =~= Seq::<FieldDefinition>::empty());
        }
        Ok(String::new())
    } else {
        proof {
            assert(tail[0] == fields@[i as int]);
            assert(tail.drop_first() =~= fields@.skip(i as int + 1));
        }
        match decl_kt(&fields[i].type_) {
            Ok(decl) => {
                if i + 1 == fields.len() {
                    proof {
                        assert(tail.drop_first() =~= fields@.skip(i as int + 1));
                        lemma_fields_declarable_cons(tail);
                    }
                    Ok(
                        String::from_str("    val ").concat(fields[i].name.as_str()).concat(
                            ": ",
                        ).concat(decl.as_str()).concat("\n"),
                    )
                } else {
                    match record_field_decls(fields, i + 1) {
                        Ok(rest) => {
                            proof {
                                lemma_fields_declarable_cons(tail);
                            }
                            Ok(
                                String::from_str("    val ").concat(fields[i].name.as_str()).concat(
                                    ": ",
                                ).concat(decl.as_str()).concat(",\n").concat(rest.as_str()),
                            )
                        },
                        Err(e) => Err(e),
                    }
                }
            },
            Err(e) => Err(e),
        }
    }
}

/// Renders the deserializer arguments of `fields` from position `i` on, or
/// fails on the first field without a Kotlin declaration.
fn record_deser_items(fields: &Vec<FieldDefinition>, i: usize) -> (r: Result<String, GenError>)
    requires
        i <= fields@.len(),
    ensures
        match r {
            Ok(s) => fields_declarable(fields@.skip(i as int)) && s@ == spec_record_deser_items(
                fields@.skip(i as int),
            ),
            Err(e) => !fields_declarable(fields@.skip(i as int)) && e
                == (GenError::UnsupportedType {
                unsupported: first_undeclarable_field(fields@.skip(i as int)),
            }),
        },
    decreases fields@.len() - i,
{
    let ghost tail = fields@.skip(i as int);
    if i == fields.len() {
        proof {
            assert(tail =~= Seq::<FieldDefinition>::empty());
        }
        Ok(String::new())
    } else {
        proof {
            assert(tail[0] == fields@[i as int]);
            assert(tail.drop_first() =~= fields@.skip(i as int + 1));
        }
        match deserialize_item_kt("buf", &fields[i].type_) {
            Ok(item) => {
                if i + 1 == fields.len() {
                    proof {
                        assert(tail.drop_first() =~= fields@.skip(i as int + 1));
                        lemma_fields_declarable_cons(tail);
                    }
                    Ok(String::from_str("                ").concat(item.as_str()).concat("\n"))
                } else {
                    match record_deser_items(fields, i + 1) {
                        Ok(rest) => {
                            proof {
                                lemma_fields_declarable_cons(tail);
                            }
                            Ok(
                                String::from_str("                ").concat(item.as_str()).concat(
                                    ",\n",
                                ).concat(rest.as_str()),
                            )
                        },
                        Err(e) => Err(e),
                    }
                }
            },
            Err(e) => Err(e),
        }
    }
}

/// Renders the size summands of `fields` from position `i` on.
fn record_size_terms(fields: &Vec<FieldDefinition>, i: usize) -> (s: String)
    requires
        i <= fields@.len(),
    ensures
        s@ == spec_record_size_terms(fields@.skip(i as int)),
    decreases fields@.len() - i,
{
    let ghost tail = fields@.skip(i as int);
    if i == fields.len() {
        proof {
            assert(tail =~= Seq::<FieldDefinition>::empty());
        }
        String::new()
    } else {
        proof {
            assert(tail[0] == fields@[i as int]);
            assert(tail.drop_first() =~= fields@.skip(i as int + 1));
        }
        let rest = record_size_terms(fields, i + 1);
        String::from_str(" +\n            this.").concat(fields[i].name.as_str()).concat(
            ".serializeForRustSize()",
        ).concat(rest.as_str())
    }
}

/// Renders the serializer statements of `fields` from position `i` on.
fn record_into_lines(fields: &Vec<FieldDefinition>, i: usize) -> (s: String)
    requires
        i <= fields@.len(),
    ensures
        s@ == spec_record_into_lines(fields@.skip(i as int)),
    decreases fields@.len() - i,
{
    let ghost tail = fields@.skip(i as int);
    if i == fields.len() {
        proof {
            assert(tail =~= Seq::<FieldDefinition>::empty());
        }
        String::new()
    } else {
        proof {
            assert(tail[0] == fields@[i as int]);
            assert(tail.drop_first() =~= fields@.skip(i as int + 1));
        }
        let rest = record_into_lines(fields, i + 1);
        String::from_str("        this.").concat(fields[i].name.as_str()).concat(
            ".serializeForRustInto(buf)\n",
        ).concat(rest.as_str())
    }
}

/// Renders the complete Kotlin data class for a record definition, or
/// fails naming the record and the first field type that no mapper
/// supports.
pub fn record_class_kt(ns: &str, rec: &RecordDefinition) -> (r: Result<String, GenError>)
    ensures
        match r {
            Ok(s) => fields_declarable(rec.fields@) && s@ == spec_record_class_kt(ns@, *rec),
            Err(e) => !fields_declarable(rec.fields@) && e == (GenError::UnsupportedTypeInItem {
                item: rec.name,
                unsupported: first_undeclarable_field(rec.fields@),
            }),
        },
{
    proof {
        assert(rec.fields@.skip(0) =~= rec.fields@);
    }
    let decls = match record_field_decls(&rec.fields, 0) {
        Ok(s) => s,
        Err(e) => {
            return Err(
                match e {
                    GenError::UnsupportedType { unsupported } => GenError::UnsupportedTypeInItem {
                        item: rec.name.clone(),
                        unsupported,
                    },
                    other => other,
                },
            );
        },
    };
    let deser = match record_deser_items(&rec.fields, 0) {
        Ok(s) => s,
        Err(e) => {
            return Err(
                match e {
                    GenError::UnsupportedType { unsupported } => GenError::UnsupportedTypeInItem {
                        item: rec.name.clone(),
                        unsupported,
                    },
                    other => other,
                },
            );
        },
    };
    let size_terms = record_size_terms(&rec.fields, 0);
    let into_lines = record_into_lines(&rec.fields, 0);
    let alloc_name = ffi_name(ns, "bytebuffer_alloc");
    let free_name = ffi_name(ns, "bytebuffer_free");
    Ok(
        String::from_str("data class ").concat(rec.name.as_str()).concat(" (\n").concat(
            decls.as_str(),
        ).concat(") {\n").concat("    companion object {\n").concat(
            "        internal fun deserializeItemFromRust(buf: ByteBuffer): ",
        ).concat(rec.name.as_str()).concat(" {\n").concat("            return ").concat(
            rec.name.as_str(),
        ).concat("(\n").concat(deser.as_str()).concat("            )\n").concat(
            "        }\n",
        ).concat("    }\n\n").concat(
            "    internal fun serializeForRust(): RustBuffer.ByValue {\n",
        ).concat("        val buf = _UniFFILib.INSTANCE.").concat(alloc_name.as_str()).concat(
            "(this.serializeForRustSize())\n",
        ).concat("        try {\n").concat(
            "            this.serializeForRustInto(buf.asByteBuffer()!!)\n",
        ).concat("            return buf\n").concat("        } catch (e: Throwable) {\n").concat(
            "            _UniFFILib.INSTANCE.",
        ).concat(free_name.as_str()).concat("(buf)\n").concat("            throw e\n").concat(
            "        }\n",
        ).concat("    }\n\n").concat("    internal fun serializeForRustSize(): Int {\n").concat(
            "        return 0",
        ).concat(size_terms.as_str()).concat("\n").concat("    }\n\n").concat(
            "    internal fun serializeForRustInto(buf: ByteBuffer) {\n",
        ).concat(into_lines.as_str()).concat("    }\n").concat("}\n"),
    )
}

// ---------------------------------------------------------------------------
// Function emission.
// ---------------------------------------------------------------------------

/// Whether every argument's type has a Kotlin declaration.
pub open spec fn args_declarable(args: Seq<ArgumentDefinition>) -> bool {
    forall|i: int| 0 <= i < args.len() ==> kt_declarable((#[trigger] args[i]).type_)
}

/// The unsupported base type of the first argument without a Kotlin
/// declaration (meaningful when some argument has none).
pub open spec fn first_undeclarable_arg(args: Seq<ArgumentDefinition>) -> TypeReference
    decreases args.len(),
{
    if args.len() == 0 {
        TypeReference::Boolean
    } else if !kt_declarable(args[0].type_) {
        base_type(args[0].type_)
    } else {
        first_undeclarable_arg(args.drop_first())
    }
}

/// Whether a function wrapper can be generated: every argument and the
/// return type, if any, must be declarable; every declarable type also has
/// lower and lift expressions.
pub open spec fn function_supported(f: FunctionDefinition) -> bool {
    &&& args_declarable(f.arguments@)
    &&& match f.return_type {
        Some(rt) => kt_declarable(rt),
        None => true,
    }
}

/// The type that a failing emission reports for a function, in the order
/// the wrapper is rendered: the first undeclarable argument, then the
/// unsupported base of the return type.
pub open spec fn function_offender(f: FunctionDefinition) -> TypeReference {
    if !args_declarable(f.arguments@) {
        first_undeclarable_arg(f.arguments@)
    } else {
        match f.return_type {
            Some(rt) => base_type(rt),
            None => TypeReference::Boolean,
        }
    }
}

/// The parameter list of the generated wrapper, one `name: Type` per
/// argument.
pub open spec fn spec_arg_decls(args: Seq<ArgumentDefinition>) -> Seq<char>
    decreases args.len(),
{
    if args.len() == 0 {
        Seq::empty()
    } else if args.len() == 1 {
        args[0].name@ + ": "@ + spec_decl_kt(args[0].type_)
    } else {
        args[0].name@ + ": "@ + spec_decl_kt(args[0].type_) + ", "@ + spec_arg_decls(
            args.drop_first(),
        )
    }
}

/// The argument list of the foreign call, each argument lowered per its
/// type.
pub open spec fn spec_lowered_args(args: Seq<ArgumentDefinition>) -> Seq<char>
    decreases args.len(),
{
    if args.len() == 0 {
        Seq::empty()
    } else if args.len() == 1 {
        spec_lower_kt(args[0].name@, args[0].type_)
    } else {
        spec_lower_kt(args[0].name@, args[0].type_) + ", "@ + spec_lowered_args(args.drop_first())
    }
}

/// The complete Kotlin wrapper for a function: it lowers each argument per
/// its type, invokes exactly one foreign call, and lifts the result per
/// the return type — or emits no return expression if the function has
/// none.
pub open spec fn spec_function_kt(ns: Seq<char>, f: FunctionDefinition) -> Seq<char> {
    match f.return_type {
        Some(rt) => "fun "@ + f.name@ + "("@ + spec_arg_decls(f.arguments@) + "): "@
            + spec_decl_kt(rt) + " {\n"@ + "    val _retval = _UniFFILib.INSTANCE."@
            + spec_ffi_name(ns, f.name@) + "("@ + spec_lowered_args(f.arguments@) + ")\n"@
            + "    return "@ + spec_lift_kt("_retval"@, rt) + "\n"@ + "}\n"@,
        None => "fun "@ + f.name@ + "("@ + spec_arg_decls(f.arguments@) + ") {\n"@
            + "    _UniFFILib.INSTANCE."@ + spec_ffi_name(ns, f.name@) + "("@ + spec_lowered_args(
            f.arguments@,
        ) + ")\n"@ + "}\n"@,
    }
}

/// Declarability of a head argument and of the tail passes to the whole
/// sequence.
proof fn lemma_args_declarable_cons(args: Seq<ArgumentDefinition>)
    requires
        args.len() > 0,
        kt_declarable(args[0].type_),
        args_declarable(args.drop_first()),
    ensures
        args_declarable(args),
{
    assert forall|j: int| 0 <= j < args.len() implies kt_declarable(
        (#[trigger] args[j]).type_,
    ) by {
        if j > 0 {
            assert(args.drop_first()[j - 1] == args[j]);
            assert(kt_declarable(args.drop_first()[j - 1].type_));
        }
    }
}

/// Renders the parameter list of `args` from position `i` on, or fails on
/// the first argument without a Kotlin declaration.
fn arg_decls(args: &Vec<ArgumentDefinition>, i: usize) -> (r: Result<String, GenError>)
    requires
        i <= args@.len(),
    ensures
        match r {
            Ok(s) => args_declarable(args@.skip(i as int)) && s@ == spec_arg_decls(
                args@.skip(i as int),
            ),
            Err(e) => !args_declarable(args@.skip(i as int)) && e == (GenError::UnsupportedType {
                unsupported: first_undeclarable_arg(args@.skip(i as int)),
            }),
        },
    decreases args@.len() - i,
{
    let ghost tail = args@.skip(i as int);
    if i == args.len() {
        proof {
            assert(tail =~= Seq::<ArgumentDefinition>::empty());
        }
        Ok(String::new())
    } else {
        proof {
            assert(tail[0] == args@[i as int]);
            assert(tail.drop_first() =~= args@.skip(i as int + 1));
        }
        match decl_kt(&args[i].type_) {
            Ok(decl) => {
                if i + 1 == args.len() {
                    proof {
                        lemma_args_declarable_cons(tail);
                    }
                    Ok(String::from_str(args[i].name.as_str()).concat(": ").concat(
                        decl.as_str(),
                    ))
                } else {
                    match arg_decls(args, i + 1) {
                        Ok(rest) => {
                            proof {
                                lemma_args_declarable_cons(tail);
                            }
                            Ok(
                                String::from_str(args[i].name.as_str()).concat(": ").concat(
                                    decl.as_str(),
                                ).concat(", ").concat(rest.as_str()),
                            )
                        },
                        Err(e) => Err(e),
                    }
                }
            },
            Err(e) => Err(e),
        }
    }
}

/// Renders the lowered argument list of `args` from position `i` on.
/// Every declarable argument can be lowered, so this cannot fail once the
/// parameter list rendered.
fn lowered_args(args: &Vec<ArgumentDefinition>, i: usize) -> (r: Result<String, GenError>)
    requires
        i <= args@.len(),
        args_declarable(args@.skip(i as int)),
    ensures
        match r {
            Ok(s) => s@ == spec_lowered_args(args@.skip(i as int)),
            Err(_) => false,
        },
    decreases args@.len() - i,
{
    let ghost tail = args@.skip(i as int);
    if i == args.len() {
        proof {
            assert(tail =~= Seq::<ArgumentDefinition>::empty());
        }
        Ok(String::new())
    } else {
        proof {
            assert(tail[0] == args@[i as int]);
            assert(tail.drop_first() =~= args@.skip(i as int + 1));
            assert(kt_declarable(tail[0].type_));
        }
        match lower_kt(args[i].name.as_str(), &args[i].type_) {
            Ok(lowered) => {
                if i + 1 == args.len() {
                    Ok(lowered)
                } else {
                    match lowered_args(args, i + 1) {
                        Ok(rest) => Ok(lowered.concat(", ").concat(rest.as_str())),
                        Err(e) => Err(e),
                    }
                }
            },
            Err(e) => Err(e),
        }
    }
}

/// Renders the complete Kotlin wrapper for a function definition, or fails
/// naming the function and the first type in it that no mapper supports.
pub fn function_kt(ns: &str, f: &FunctionDefinition) -> (r: Result<String, GenError>)
    ensures
        match r {
            Ok(s) => function_supported(*f) && s@ == spec_function_kt(ns@, *f),
            Err(e) => !function_supported(*f) && e == (GenError::UnsupportedTypeInItem {
                item: f.name,
                unsupported: function_offender(*f),
            }),
        },
{
    proof {
        assert(f.arguments@.skip(0) =~= f.arguments@);
    }
    let decls = match arg_decls(&f.arguments, 0) {
        Ok(s) => s,
        Err(e) => {
            return Err(
                match e {
                    GenError::UnsupportedType { unsupported } => GenError::UnsupportedTypeInItem {
                        item: f.name.clone(),
                        unsupported,
                    },
                    other => other,
                },
            );
        },
    };
    let symbol = ffi_name(ns, f.name.as_str());
    match &f.return_type {
        Some(rt) => {
            let ret_decl = match decl_kt(rt) {
                Ok(s) => s,
                Err(e) => {
                    return Err(
                        match e {
                            GenError::UnsupportedType { unsupported } =>
                                GenError::UnsupportedTypeInItem {
                                item: f.name.clone(),
                                unsupported,
                            },
                            other => other,
                        },
                    );
                },
            };
            let lift = match lift_kt("_retval", rt) {
                Ok(s) => s,
                Err(e) => {
                    return Err(
                        match e {
                            GenError::UnsupportedType { unsupported } =>
                                GenError::UnsupportedTypeInItem {
                                item: f.name.clone(),
                                unsupported,
                            },
                            other => other,
                        },
                    );
                },
            };
            let lowered = match lowered_args(&f.arguments, 0) {
                Ok(s) => s,
                Err(e) => {
                    return Err(e);
                },
            };
            Ok(
                String::from_str("fun ").concat(f.name.as_str()).concat("(").concat(
                    decls.as_str(),
                ).concat("): ").concat(ret_decl.as_str()).concat(" {\n").concat(
                    "    val _retval = _UniFFILib.INSTANCE.",
                ).concat(symbol.as_str()).concat("(").concat(lowered.as_str()).concat(
                    ")\n",
                ).concat("    return ").concat(lift.as_str()).concat("\n").concat("}\n"),
            )
        },
        None => {
            let lowered = match lowered_args(&f.arguments, 0) {
                Ok(s) => s,
                Err(e) => {
                    return Err(e);
                },
            };
            Ok(
                String::from_str("fun ").concat(f.name.as_str()).concat("(").concat(
                    decls.as_str(),
                ).concat(") {\n").concat("    _UniFFILib.INSTANCE.").concat(
                    symbol.as_str(),
                ).concat("(").concat(lowered.as_str()).concat(")\n").concat("}\n"),
            )
        },
    }
}

// ---------------------------------------------------------------------------
// The foreign-call interface block.
// ---------------------------------------------------------------------------

/// Whether every argument's type can cross the foreign-call boundary.
pub open spec fn args_c_mappable(args: Seq<ArgumentDefinition>) -> bool {
    forall|i: int| 0 <= i < args.len() ==> c_mappable((#[trigger] args[i]).type_)
}

/// The first argument type that cannot cross the foreign-call boundary
/// (meaningful when some argument cannot).
pub open spec fn first_unmappable_arg(args: Seq<ArgumentDefinition>) -> TypeReference
    decreases args.len(),
{
    if args.len() == 0 {
        TypeReference::Boolean
    } else if !c_mappable(args[0].type_) {
        args[0].type_
    } else {
        first_unmappable_arg(args.drop_first())
    }
}

/// Whether the foreign-call declaration of a function can be produced:
/// every argument type and the return type, if any, must cross the
/// boundary.
pub open spec fn foreign_call_supported(f: FunctionDefinition) -> bool {
    &&& args_c_mappable(f.arguments@)
    &&& match f.return_type {
        Some(rt) => c_mappable(rt),
        None => true,
    }
}

/// The type that a failing foreign-call mapping reports.
pub open spec fn foreign_call_offender(f: FunctionDefinition) -> TypeReference {
    if !args_c_mappable(f.arguments@) {
        first_unmappable_arg(f.arguments@)
    } else {
        match f.return_type {
            Some(rt) => rt,
            None => TypeReference::Boolean,
        }
    }
}

/// One scalar-or-buffer argument of a foreign-call entry point: its name
/// and its mapped declaration.
pub struct ForeignCallArgument {
    pub name: String,
    pub type_decl: String,
}

/// The native side of one interface function: the symbol name, the mapped
/// declaration of each argument, and the mapped return declaration. It is
/// produced from a function definition by applying the declaration mapper,
/// owned by the generation pass, and never persisted.
pub struct ForeignCallDefinition {
    pub name: String,
    pub arguments: Vec<ForeignCallArgument>,
    pub return_decl: Option<String>,
}

/// Mappability of a head argument and of the tail passes to the whole
/// sequence.
proof fn lemma_args_c_mappable_cons(args: Seq<ArgumentDefinition>)
    requires
        args.len() > 0,
        c_mappable(args[0].type_),
        args_c_mappable(args.drop_first()),
    ensures
        args_c_mappable(args),
{
    assert forall|j: int| 0 <= j < args.len() implies c_mappable((#[trigger] args[j]).type_) by {
        if j > 0 {
            assert(args.drop_first()[j - 1] == args[j]);
            assert(c_mappable(args.drop_first()[j - 1].type_));
        }
    }
}

/// Maps the arguments of `args` from position `i` on to foreign-call
/// argument declarations, or fails on the first type that cannot cross
/// the boundary.
fn foreign_call_args(args: &Vec<ArgumentDefinition>, i: usize) -> (r: Result<
    Vec<ForeignCallArgument>,
    GenError,
>)
    requires
        i <= args@.len(),
    ensures
        match r {
            Ok(ds) => {
                &&& args_c_mappable(args@.skip(i as int))
                &&& ds@.len() + i == args@.len()
                &&& forall|j: int|
                    0 <= j < ds@.len() ==> (#[trigger] ds@[j]).name@ == args@[j + i].name@
                        && ds@[j].type_decl@ == spec_decl_c_argument(args@[j + i].type_)
            },
            Err(e) => !args_c_mappable(args@.skip(i as int)) && e == (GenError::UnsupportedType {
                unsupported: first_unmappable_arg(args@.skip(i as int)),
            }),
        },
    decreases args@.len() - i,
{
    let ghost tail = args@.skip(i as int);
    if i == args.len() {
        proof {
            assert(tail =~= Seq::<ArgumentDefinition>::empty());
        }
        Ok(Vec::new())
    } else {
        proof {
            assert(tail[0] == args@[i as int]);
            assert(tail.drop_first() =~= args@.skip(i as int + 1));
        }
        match decl_c_argument(&args[i].type_) {
            Ok(decl) => match foreign_call_args(args, i + 1) {
                Ok(mut rest) => {
                    proof {
                        lemma_args_c_mappable_cons(tail);
                    }
                    let ghost old_rest = rest@;
                    rest.insert(0, ForeignCallArgument { name: args[i].name.clone(), type_decl: decl });
                    Ok(rest)
                },
                Err(e) => Err(e),
            },
            Err(e) => Err(e),
        }
    }
}

/// Applies the declaration mapper to a function definition, producing the
/// foreign-call entry point it maps to, or fails naming the function and
/// the first type that cannot cross the boundary.
pub fn foreign_call_of(ns: &str, f: &FunctionDefinition) -> (r: Result<
    ForeignCallDefinition,
    GenError,
>)
    ensures
        match r {
            Ok(d) => {
                &&& foreign_call_supported(*f)
                &&& d.name@ == spec_ffi_name(ns@, f.name@)
                &&& d.arguments@.len() == f.arguments@.len()
                &&& forall|j: int|
                    0 <= j < d.arguments@.len() ==> (#[trigger] d.arguments@[j]).name@
                        == f.arguments@[j].name@ && d.arguments@[j].type_decl@
                        == spec_decl_c_argument(f.arguments@[j].type_)
                &&& match (d.return_decl, f.return_type) {
                    (Some(decl), Some(rt)) => decl@ == spec_decl_c_return(rt),
                    (None, None) => true,
                    _ => false,
                }
            },
            Err(e) => !foreign_call_supported(*f) && e == (GenError::UnsupportedTypeInItem {
                item: f.name,
                unsupported: foreign_call_offender(*f),
            }),
        },
{
    proof {
        assert(f.arguments@.skip(0) =~= f.arguments@);
    }
    let arguments = match foreign_call_args(&f.arguments, 0) {
        Ok(ds) => ds,
        Err(e) => {
            return Err(
                match e {
                    GenError::UnsupportedType { unsupported } => GenError::UnsupportedTypeInItem {
                        item: f.name.clone(),
                        unsupported,
                    },
                    other => other,
                },
            );
        },
    };
    let return_decl = match &f.return_type {
        Some(rt) => match decl_c_return(rt) {
            Ok(decl) => Some(decl),
            Err(e) => {
                return Err(
                    match e {
                        GenError::UnsupportedType { unsupported } =>
                            GenError::UnsupportedTypeInItem {
                            item: f.name.clone(),
                            unsupported,
                        },
                        other => other,
                    },
                );
            },
        },
        None => None,
    };
    Ok(ForeignCallDefinition { name: ffi_name(ns, f.name.as_str()), arguments, return_decl })
}

/// The argument list of a foreign-call declaration line.
pub open spec fn spec_ffi_arg_decls(args: Seq<ArgumentDefinition>) -> Seq<char>
    decreases args.len(),
{
    if args.len() == 0 {
        Seq::empty()
    } else if args.len() == 1 {
        args[0].name@ + ": "@ + spec_decl_c_argument(args[0].type_)
    } else {
        args[0].name@ + ": "@ + spec_decl_c_argument(args[0].type_) + ", "@ + spec_ffi_arg_decls(
            args.drop_first(),
        )
    }
}

/// One line of the foreign-call interface block, declaring the entry
/// point of a function with its mapped argument and return types.
pub open spec fn spec_ffi_fun_line(ns: Seq<char>, f: FunctionDefinition) -> Seq<char> {
    "    fun "@ + spec_ffi_name(ns, f.name@) + "("@ + spec_ffi_arg_decls(f.arguments@) + ")"@
        + (match f.return_type {
        Some(rt) => ": "@ + spec_decl_c_return(rt),
        None => Seq::empty(),
    }) + "\n"@
}

/// The declaration lines of all the functions' entry points, in declared
/// order.
pub open spec fn spec_ffi_fun_lines(ns: Seq<char>, fs: Seq<FunctionDefinition>) -> Seq<char>
    decreases fs.len(),
{
    if fs.len() == 0 {
        Seq::empty()
    } else {
        spec_ffi_fun_line(ns, fs[0]) + spec_ffi_fun_lines(ns, fs.drop_first())
    }
}

/// Whether every function's foreign-call declaration can be produced.
pub open spec fn functions_mappable(fs: Seq<FunctionDefinition>) -> bool {
    forall|i: int| 0 <= i < fs.len() ==> foreign_call_supported(#[trigger] fs[i])
}

/// The error for the first function whose foreign-call declaration cannot
/// be produced (meaningful when one cannot).
pub open spec fn spec_ffi_lines_error(fs: Seq<FunctionDefinition>) -> GenError
    decreases fs.len(),
{
    if fs.len() == 0 {
        GenError::UnsupportedType { unsupported: TypeReference::Boolean }
    } else if !foreign_call_supported(fs[0]) {
        GenError::UnsupportedTypeInItem {
            item: fs[0].name,
            unsupported: foreign_call_offender(fs[0]),
        }
    } else {
        spec_ffi_lines_error(fs.drop_first())
    }
}

/// The whole foreign-call interface block: the lazily-initialized
/// process-wide handle to the native library, the two buffer entry points
/// every component exports, and one declaration per interface function.
pub open spec fn spec_ffi_block(ns: Seq<char>, fs: Seq<FunctionDefinition>) -> Seq<char> {
    "internal interface _UniFFILib : Library {\n"@ + "    companion object {\n"@
        + "        internal var INSTANCE: _UniFFILib = loadIndirect(componentName = \""@ + ns
        + "\")\n"@ + "    }\n\n"@ + "    fun "@ + spec_alloc_name(ns)
        + "(size: Int): RustBuffer.ByValue\n"@ + "    fun "@ + spec_free_name(ns)
        + "(buf: RustBuffer.ByValue)\n"@ + spec_ffi_fun_lines(ns, fs) + "}\n"@
}

/// Renders the foreign-call argument list of `args` from position `i` on,
/// or fails on the first type that cannot cross the boundary.
fn ffi_arg_decls(args: &Vec<ArgumentDefinition>, i: usize) -> (r: Result<String, GenError>)
    requires
        i <= args@.len(),
    ensures
        match r {
            Ok(s) => args_c_mappable(args@.skip(i as int)) && s@ == spec_ffi_arg_decls(
                args@.skip(i as int),
            ),
            Err(e) => !args_c_mappable(args@.skip(i as int)) && e == (GenError::UnsupportedType {
                unsupported: first_unmappable_arg(args@.skip(i as int)),
            }),
        },
    decreases args@.len() - i,
{
    let ghost tail = args@.skip(i as int);
    if i == args.len() {
        proof {
            assert(tail =~= Seq::<ArgumentDefinition>::empty());
        }
        Ok(String::new())
    } else {
        proof {
            assert(tail[0] == args@[i as int]);
            assert(tail.drop_first() =~= args@.skip(i as int + 1));
        }
        match decl_c_argument(&args[i].type_) {
            Ok(decl) => {
                if i + 1 == args.len() {
                    proof {
                        lemma_args_c_mappable_cons(tail);
                    }
                    Ok(String::from_str(args[i].name.as_str()).concat(": ").concat(decl.as_str()))
                } else {
                    match ffi_arg_decls(args, i + 1) {
                        Ok(rest) => {
                            proof {
                                lemma_args_c_mappable_cons(tail);
                            }
                            Ok(
                                String::from_str(args[i].name.as_str()).concat(": ").concat(
                                    decl.as_str(),
                                ).concat(", ").concat(rest.as_str()),
                            )
                        },
                        Err(e) => Err(e),
                    }
                }
            },
            Err(e) => Err(e),
        }
    }
}

/// Renders the entry-point declaration lines of `fs` from position `i` on,
/// or fails on the first function whose declaration cannot be produced.
fn ffi_fun_lines(ns: &str, fs: &Vec<FunctionDefinition>, i: usize) -> (r: Result<String, GenError>)
    requires
        i <= fs@.len(),
    ensures
        match r {
            Ok(s) => functions_mappable(fs@.skip(i as int)) && s@ == spec_ffi_fun_lines(
                ns@,
                fs@.skip(i as int),
            ),
            Err(e) => !functions_mappable(fs@.skip(i as int)) && e == spec_ffi_lines_error(
                fs@.skip(i as int),
            ),
        },
    decreases fs@.len() - i,
{
    let ghost tail = fs@.skip(i as int);
    if i == fs.len() {
        proof {
            assert(tail =~= Seq::<FunctionDefinition>::empty());
        }
        Ok(String::new())
    } else {
        proof {
            assert(tail[0] == fs@[i as int]);
            assert(tail.drop_first() =~= fs@.skip(i as int + 1));
            assert(fs@[i as int].arguments@.skip(0) =~= fs@[i as int].arguments@);
        }
        let f = &fs[i];
        let arg_text = match ffi_arg_decls(&f.arguments, 0) {
            Ok(s) => s,
            Err(e) => {
                return Err(
                    match e {
                        GenError::UnsupportedType { unsupported } =>
                            GenError::UnsupportedTypeInItem {
                            item: f.name.clone(),
                            unsupported,
                        },
                        other => other,
                    },
                );
            },
        };
        let ret_text = match &f.return_type {
            Some(rt) => match decl_c_return(rt) {
                Ok(decl) => String::from_str(": ").concat(decl.as_str()),
                Err(e) => {
                    return Err(
                        match e {
                            GenError::UnsupportedType { unsupported } =>
                                GenError::UnsupportedTypeInItem {
                                item: f.name.clone(),
                                unsupported,
                            },
                            other => other,
                        },
                    );
                },
            },
            None => String::new(),
        };
        let line = String::from_str("    fun ").concat(ffi_name(ns, f.name.as_str()).as_str())
            .concat("(").concat(arg_text.as_str()).concat(")").concat(ret_text.as_str()).concat(
            "\n",
        );
        match ffi_fun_lines(ns, fs, i + 1) {
            Ok(rest) => {
                proof {
                    assert forall|j: int| 0 <= j < tail.len() implies foreign_call_supported(
                        #[trigger] tail[j],
                    ) by {
                        if j > 0 {
                            assert(tail.drop_first()[j - 1] == tail[j]);
                            assert(foreign_call_supported(tail.drop_first()[j - 1]));
                        }
                    }
                }
                Ok(line.concat(rest.as_str()))
            },
            Err(e) => Err(e),
        }
    }
}

/// Renders the whole foreign-call interface block, or fails on the first
/// function whose entry point cannot be declared.
pub fn ffi_block_kt(ns: &str, fs: &Vec<FunctionDefinition>) -> (r: Result<String, GenError>)
    ensures
        match r {
            Ok(s) => functions_mappable(fs@) && s@ == spec_ffi_block(ns@, fs@),
            Err(e) => !functions_mappable(fs@) && e == spec_ffi_lines_error(fs@),
        },
{
    proof {
        assert(fs@.skip(0) =~= fs@);
    }
    let lines = match ffi_fun_lines(ns, fs, 0) {
        Ok(s) => s,
        Err(e) => {
            return Err(e);
        },
    };
    let alloc_name = ffi_name(ns, "bytebuffer_alloc");
    let free_name = ffi_name(ns, "bytebuffer_free");
    Ok(
        String::from_str("internal interface _UniFFILib : Library {\n").concat(
            "    companion object {\n",
        ).concat("        internal var INSTANCE: _UniFFILib = loadIndirect(componentName = \"")
            .concat(ns).concat("\")\n").concat("    }\n\n").concat("    fun ").concat(
            alloc_name.as_str(),
        ).concat("(size: Int): RustBuffer.ByValue\n").concat("    fun ").concat(
            free_name.as_str(),
        ).concat("(buf: RustBuffer.ByValue)\n").concat(lines.as_str()).concat("}\n"),
    )
}

// ---------------------------------------------------------------------------
// The whole Kotlin wrapper.
// ---------------------------------------------------------------------------

/// The shared helper code at the top of every generated file: the package
/// declaration, the JNA plumbing, the buffer type, and the serialization
/// helpers for the scalar types, for nullable values, and for the
/// `java.util.Optional` values that carry nested optional levels. The
/// allocation
/// entry point is called with the precomputed size; both failure paths
/// release the buffer through the free entry point.
pub open spec fn spec_preamble(package: Seq<char>, ns: Seq<char>) -> Seq<char> {
    "package "@ + package
        + ";\n\nimport com.sun.jna.Library\nimport com.sun.jna.Native\nimport com.sun.jna.Pointer\nimport com.sun.jna.Structure\nimport java.nio.ByteBuffer\nimport java.nio.ByteOrder\n\ninline fun <reified Lib : Library> loadIndirect(componentName: String): Lib {\n    return Native.load<Lib>(\"uniffi_${componentName}\", Lib::class.java)\n}\n\n@Structure.FieldOrder(\"len\", \"data\")\nopen class RustBuffer : Structure() {\n    @JvmField var len: Long = 0\n    @JvmField var data: Pointer? = null\n\n    class ByValue : RustBuffer(), Structure.ByValue\n\n    fun asByteBuffer(): ByteBuffer? {\n        return this.data?.let {\n            val buf = it.getByteBuffer(0, this.len)\n            buf.order(ByteOrder.BIG_ENDIAN)\n            return buf\n        }\n    }\n}\n\npublic fun Boolean.Companion.deserializeItemFromRust(buf: ByteBuffer): Boolean {\n    return buf.get().toInt() != 0\n}\n\npublic fun Boolean.serializeForRustSize(): Int {\n    return 1\n}\n\npublic fun Boolean.serializeForRustInto(buf: ByteBuffer) {\n    buf.put((if (this) 1 else 0).toByte())\n}\n\npublic fun Byte.Companion.deserializeItemFromRust(buf: ByteBuffer): Byte {\n    return buf.get()\n}\n\npublic fun Int.Companion.deserializeItemFromRust(buf: ByteBuffer): Int {\n    return buf.getInt()\n}\n\npublic fun Int.serializeForRustSize(): Int {\n    return 4\n}\n\npublic fun Int.serializeForRustInto(buf: ByteBuffer) {\n    buf.putInt(this)\n}\n\npublic fun Long.Companion.deserializeItemFromRust(buf: ByteBuffer): Long {\n    return buf.getLong()\n}\n\npublic fun Long.serializeForRustSize(): Int {\n    return 8\n}\n\npublic fun Long.serializeForRustInto(buf: ByteBuffer) {\n    buf.putLong(this)\n}\n\npublic fun Float.Companion.deserializeItemFromRust(buf: ByteBuffer): Float {\n    return buf.getFloat()\n}\n\npublic fun Float.serializeForRustSize(): Int {\n    return 4\n}\n\npublic fun Float.serializeForRustInto(buf: ByteBuffer) {\n    buf.putFloat(this)\n}\n\npublic fun Double.Companion.deserializeItemFromRust(buf: ByteBuffer): Double {\n    return buf.getDouble()\n}\n\npublic fun Double.serializeForRustSize(): Int {\n    return 8\n}\n\npublic fun Double.serializeForRustInto(buf: ByteBuffer) {\n    buf.putDouble(this)\n}\n\npublic fun<T> T?.serializeForRustSize(): Int {\n    if (this === null) return 1\n    return 1 + this.serializeForRustSize()\n}\n\npublic fun<T> T?.serializeForRustInto(buf: ByteBuffer) {\n    if (this === null) buf.put(0)\n    else {\n        buf.put(1)\n        this.serializeForRustInto(buf)\n    }\n}\n\npublic fun<T> java.util.Optional<T>.serializeForRustSize(): Int {\n    if (!this.isPresent) return 1\n    return 1 + this.get().serializeForRustSize()\n}\n\npublic fun<T> java.util.Optional<T>.serializeForRustInto(buf: ByteBuffer) {\n    if (!this.isPresent) buf.put(0)\n    else {\n        buf.put(1)\n        this.get().serializeForRustInto(buf)\n    }\n}\n\ninternal fun Any?.serializeForRust(): RustBuffer.ByValue {\n    val buf = _UniFFILib.INSTANCE."@
        + spec_alloc_name(ns)
        + "(this.serializeForRustSize())\n    try {\n        this.serializeForRustInto(buf.asByteBuffer()!!)\n        return buf\n    } catch (e: Throwable) {\n        _UniFFILib.INSTANCE."@
        + spec_free_name(ns)
        + "(buf)\n        throw e\n    }\n}\n\npublic fun<T> deserializeFromRust(rbuf: RustBuffer.ByValue, deserializeItemFromRust: (ByteBuffer) -> T): T {\n    val buf = rbuf.asByteBuffer()!!\n    try {\n        val item = deserializeItemFromRust(buf)\n        if (buf.hasRemaining()) {\n            throw RuntimeException(\"junk remaining in record buffer, something is very wrong!!\")\n        }\n        return item\n    } finally {\n        _UniFFILib.INSTANCE."@
        + spec_free_name(ns) + "(rbuf)\n    }\n}\n\n"@
}

/// Renders the shared helper code.
fn preamble_kt(package: &str, ns: &str) -> (s: String)
    ensures
        s@ == spec_preamble(package@, ns@),
{
    let alloc_name = ffi_name(ns, "bytebuffer_alloc");
    let free_name = ffi_name(ns, "bytebuffer_free");
    String::from_str("package ").concat(package).concat(
        ";\n\nimport com.sun.jna.Library\nimport com.sun.jna.Native\nimport com.sun.jna.Pointer\nimport com.sun.jna.Structure\nimport java.nio.ByteBuffer\nimport java.nio.ByteOrder\n\ninline fun <reified Lib : Library> loadIndirect(componentName: String): Lib {\n    return Native.load<Lib>(\"uniffi_${componentName}\", Lib::class.java)\n}\n\n@Structure.FieldOrder(\"len\", \"data\")\nopen class RustBuffer : Structure() {\n    @JvmField var len: Long = 0\n    @JvmField var data: Pointer? = null\n\n    class ByValue : RustBuffer(), Structure.ByValue\n\n    fun asByteBuffer(): ByteBuffer? {\n        return this.data?.let {\n            val buf = it.getByteBuffer(0, this.len)\n            buf.order(ByteOrder.BIG_ENDIAN)\n            return buf\n        }\n    }\n}\n\npublic fun Boolean.Companion.deserializeItemFromRust(buf: ByteBuffer): Boolean {\n    return buf.get().toInt() != 0\n}\n\npublic fun Boolean.serializeForRustSize(): Int {\n    return 1\n}\n\npublic fun Boolean.serializeForRustInto(buf: ByteBuffer) {\n    buf.put((if (this) 1 else 0).toByte())\n}\n\npublic fun Byte.Companion.deserializeItemFromRust(buf: ByteBuffer): Byte {\n    return buf.get()\n}\n\npublic fun Int.Companion.deserializeItemFromRust(buf: ByteBuffer): Int {\n    return buf.getInt()\n}\n\npublic fun Int.serializeForRustSize(): Int {\n    return 4\n}\n\npublic fun Int.serializeForRustInto(buf: ByteBuffer) {\n    buf.putInt(this)\n}\n\npublic fun Long.Companion.deserializeItemFromRust(buf: ByteBuffer): Long {\n    return buf.getLong()\n}\n\npublic fun Long.serializeForRustSize(): Int {\n    return 8\n}\n\npublic fun Long.serializeForRustInto(buf: ByteBuffer) {\n    buf.putLong(this)\n}\n\npublic fun Float.Companion.deserializeItemFromRust(buf: ByteBuffer): Float {\n    return buf.getFloat()\n}\n\npublic fun Float.serializeForRustSize(): Int {\n    return 4\n}\n\npublic fun Float.serializeForRustInto(buf: ByteBuffer) {\n    buf.putFloat(this)\n}\n\npublic fun Double.Companion.deserializeItemFromRust(buf: ByteBuffer): Double {\n    return buf.getDouble()\n}\n\npublic fun Double.serializeForRustSize(): Int {\n    return 8\n}\n\npublic fun Double.serializeForRustInto(buf: ByteBuffer) {\n    buf.putDouble(this)\n}\n\npublic fun<T> T?.serializeForRustSize(): Int {\n    if (this === null) return 1\n    return 1 + this.serializeForRustSize()\n}\n\npublic fun<T> T?.serializeForRustInto(buf: ByteBuffer) {\n    if (this === null) buf.put(0)\n    else {\n        buf.put(1)\n        this.serializeForRustInto(buf)\n    }\n}\n\npublic fun<T> java.util.Optional<T>.serializeForRustSize(): Int {\n    if (!this.isPresent) return 1\n    return 1 + this.get().serializeForRustSize()\n}\n\npublic fun<T> java.util.Optional<T>.serializeForRustInto(buf: ByteBuffer) {\n    if (!this.isPresent) buf.put(0)\n    else {\n        buf.put(1)\n        this.get().serializeForRustInto(buf)\n    }\n}\n\ninternal fun Any?.serializeForRust(): RustBuffer.ByValue {\n    val buf = _UniFFILib.INSTANCE.",
    ).concat(alloc_name.as_str()).concat(
        "(this.serializeForRustSize())\n    try {\n        this.serializeForRustInto(buf.asByteBuffer()!!)\n        return buf\n    } catch (e: Throwable) {\n        _UniFFILib.INSTANCE.",
    ).concat(free_name.as_str()).concat(
        "(buf)\n        throw e\n    }\n}\n\npublic fun<T> deserializeFromRust(rbuf: RustBuffer.ByValue, deserializeItemFromRust: (ByteBuffer) -> T): T {\n    val buf = rbuf.asByteBuffer()!!\n    try {\n        val item = deserializeItemFromRust(buf)\n        if (buf.hasRemaining()) {\n            throw RuntimeException(\"junk remaining in record buffer, something is very wrong!!\")\n        }\n        return item\n    } finally {\n        _UniFFILib.INSTANCE.",
    ).concat(free_name.as_str()).concat("(rbuf)\n    }\n}\n\n")
}

/// The enum classes of the interface, in declared order.
pub open spec fn spec_enums_section(es: Seq<EnumDefinition>) -> Seq<char>
    decreases es.len(),
{
    if es.len() == 0 {
        Seq::empty()
    } else {
        spec_enum_class_kt(es[0]) + "\n"@ + spec_enums_section(es.drop_first())
    }
}

/// The data classes of the interface, in declared order.
pub open spec fn spec_records_section(ns: Seq<char>, rs: Seq<RecordDefinition>) -> Seq<char>
    decreases rs.len(),
{
    if rs.len() == 0 {
        Seq::empty()
    } else {
        spec_record_class_kt(ns, rs[0]) + "\n"@ + spec_records_section(ns, rs.drop_first())
    }
}

/// The function wrappers of the interface, in declared order.
pub open spec fn spec_functions_section(ns: Seq<char>, fs: Seq<FunctionDefinition>) -> Seq<char>
    decreases fs.len(),
{
    if fs.len() == 0 {
        Seq::empty()
    } else {
        spec_function_kt(ns, fs[0]) + "\n"@ + spec_functions_section(ns, fs.drop_first())
    }
}

/// Whether every record of the interface can be emitted.
pub open spec fn records_declarable(rs: Seq<RecordDefinition>) -> bool {
    forall|i: int| 0 <= i < rs.len() ==> fields_declarable((#[trigger] rs[i]).fields@)
}

/// Whether every function wrapper of the interface can be emitted.
pub open spec fn functions_supported(fs: Seq<FunctionDefinition>) -> bool {
    forall|i: int| 0 <= i < fs.len() ==> function_supported(#[trigger] fs[i])
}

/// The error for the first record that cannot be emitted (meaningful when
/// one cannot).
pub open spec fn spec_records_error(rs: Seq<RecordDefinition>) -> GenError
    decreases rs.len(),
{
    if rs.len() == 0 {
        GenError::UnsupportedType { unsupported: TypeReference::Boolean }
    } else if !fields_declarable(rs[0].fields@) {
        GenError::UnsupportedTypeInItem {
            item: rs[0].name,
            unsupported: first_undeclarable_field(rs[0].fields@),
        }
    } else {
        spec_records_error(rs.drop_first())
    }
}

/// The error for the first function wrapper that cannot be emitted
/// (meaningful when one cannot).
pub open spec fn spec_functions_error(fs: Seq<FunctionDefinition>) -> GenError
    decreases fs.len(),
{
    if fs.len() == 0 {
        GenError::UnsupportedType { unsupported: TypeReference::Boolean }
    } else if !function_supported(fs[0]) {
        GenError::UnsupportedTypeInItem { item: fs[0].name, unsupported: function_offender(fs[0]) }
    } else {
        spec_functions_error(fs.drop_first())
    }
}

/// The error of a failing generation pass: the first item, in emission
/// order, that references an unsupported type, with that type.
pub open spec fn spec_generate_error(ci: ComponentInterface) -> GenError {
    if !functions_mappable(ci.functions@) {
        spec_ffi_lines_error(ci.functions@)
    } else if !records_declarable(ci.records@) {
        spec_records_error(ci.records@)
    } else {
        spec_functions_error(ci.functions@)
    }
}

/// Whether the whole interface can be generated: every type referenced by
/// an item must be supported by the mappers that the item needs.
pub open spec fn interface_supported(ci: ComponentInterface) -> bool {
    &&& functions_mappable(ci.functions@)
    &&& records_declarable(ci.records@)
    &&& functions_supported(ci.functions@)
}

/// The complete generated Kotlin source for an interface: the shared
/// helper code, the foreign-call interface block, and one declaration per
/// enum, record and function, each processed independently in declared
/// order. A pure function of the package name and the interface model:
/// generation is deterministic.
pub open spec fn spec_kotlin_wrapper(package: Seq<char>, ci: ComponentInterface) -> Seq<char> {
    spec_preamble(package, ci.namespace@) + spec_ffi_block(ci.namespace@, ci.functions@) + "\n"@
        + spec_enums_section(ci.enums@) + spec_records_section(ci.namespace@, ci.records@)
        + spec_functions_section(ci.namespace@, ci.functions@)
}

/// Renders the enum section from position `i` on.
fn enums_section(es: &Vec<EnumDefinition>, i: usize) -> (s: String)
    requires
        i <= es@.len(),
    ensures
        s@ == spec_enums_section(es@.skip(i as int)),
    decreases es@.len() - i,
{
    let ghost tail = es@.skip(i as int);
    if i == es.len() {
        proof {
            assert(tail =~= Seq::<EnumDefinition>::empty());
        }
        String::new()
    } else {
        proof {
            assert(tail[0] == es@[i as int]);
            assert(tail.drop_first() =~= es@.skip(i as int + 1));
        }
        let rest = enums_section(es, i + 1);
        enum_class_kt(&es[i]).concat("\n").concat(rest.as_str())
    }
}

/// Renders the record section from position `i` on, or fails on the first
/// record that cannot be emitted.
fn records_section(ns: &str, rs: &Vec<RecordDefinition>, i: usize) -> (r: Result<String, GenError>)
    requires
        i <= rs@.len(),
    ensures
        match r {
            Ok(s) => records_declarable(rs@.skip(i as int)) && s@ == spec_records_section(
                ns@,
                rs@.skip(i as int),
            ),
            Err(e) => !records_declarable(rs@.skip(i as int)) && e == spec_records_error(
                rs@.skip(i as int),
            ),
        },
    decreases rs@.len() - i,
{
    let ghost tail = rs@.skip(i as int);
    if i == rs.len() {
        proof {
            assert(tail =~= Seq::<RecordDefinition>::empty());
        }
        Ok(String::new())
    } else {
        proof {
            assert(tail[0] == rs@[i as int]);
            assert(tail.drop_first() =~= rs@.skip(i as int + 1));
        }
        match record_class_kt(ns, &rs[i]) {
            Ok(text) => match records_section(ns, rs, i + 1) {
                Ok(rest) => {
                    proof {
                        assert forall|j: int| 0 <= j < tail.len() implies fields_declarable(
                            (#[trigger] tail[j]).fields@,
                        ) by {
                            if j > 0 {
                                assert(tail.drop_first()[j - 1] == tail[j]);
                                assert(fields_declarable(tail.drop_first()[j - 1].fields@));
                            }
                        }
                    }
                    Ok(text.concat("\n").concat(rest.as_str()))
                },
                Err(e) => Err(e),
            },
            Err(e) => Err(e),
        }
    }
}

/// Renders the function section from position `i` on, or fails on the
/// first function that cannot be emitted.
fn functions_section(ns: &str, fs: &Vec<FunctionDefinition>, i: usize) -> (r: Result<
    String,
    GenError,
>)
    requires
        i <= fs@.len(),
    ensures
        match r {
            Ok(s) => functions_supported(fs@.skip(i as int)) && s@ == spec_functions_section(
                ns@,
                fs@.skip(i as int),
            ),
            Err(e) => !functions_supported(fs@.skip(i as int)) && e == spec_functions_error(
                fs@.skip(i as int),
            ),
        },
    decreases fs@.len() - i,
{
    let ghost tail = fs@.skip(i as int);
    if i == fs.len() {
        proof {
            assert(tail =~= Seq::<FunctionDefinition>::empty());
        }
        Ok(String::new())
    } else {
        proof {
            assert(tail[0] == fs@[i as int]);
            assert(tail.drop_first() =~= fs@.skip(i as int + 1));
        }
        match function_kt(ns, &fs[i]) {
            Ok(text) => match functions_section(ns, fs, i + 1) {
                Ok(rest) => {
                    proof {
                        assert forall|j: int| 0 <= j < tail.len() implies function_supported(
                            #[trigger] tail[j],
                        ) by {
                            if j > 0 {
                                assert(tail.drop_first()[j - 1] == tail[j]);
                                assert(function_supported(tail.drop_first()[j - 1]));
                            }
                        }
                    }
                    Ok(text.concat("\n").concat(rest.as_str()))
                },
                Err(e) => Err(e),
            },
            Err(e) => Err(e),
        }
    }
}

/// Generates the complete Kotlin source for an interface model under a
/// configuration, or fails on the first item that references an
/// unsupported type, naming the item and the type. Other items' output is
/// not corrupted by such a failure: each item is processed independently.
pub fn generate_kotlin(config: &Config, ci: &ComponentInterface) -> (r: Result<String, GenError>)
    ensures
        match r {
            Ok(s) => interface_supported(*ci) && s@ == spec_kotlin_wrapper(
                config.package_name@,
                *ci,
            ),
            Err(e) => !interface_supported(*ci) && e == spec_generate_error(*ci),
        },
{
    proof {
        assert(ci.enums@.skip(0) =~= ci.enums@);
        assert(ci.records@.skip(0) =~= ci.records@);
        assert(ci.functions@.skip(0) =~= ci.functions@);
    }
    let preamble = preamble_kt(config.package_name.as_str(), ci.namespace.as_str());
    let ffi = match ffi_block_kt(ci.namespace.as_str(), &ci.functions) {
        Ok(s) => s,
        Err(e) => {
            return Err(e);
        },
    };
    let enums = enums_section(&ci.enums, 0);
    let records = match records_section(ci.namespace.as_str(), &ci.records, 0) {
        Ok(s) => s,
        Err(e) => {
            return Err(e);
        },
    };
    let functions = match functions_section(ci.namespace.as_str(), &ci.functions, 0) {
        Ok(s) => s,
        Err(e) => {
            return Err(e);
        },
    };
    Ok(
        preamble.concat(ffi.as_str()).concat("\n").concat(enums.as_str()).concat(
            records.as_str(),
        ).concat(functions.as_str()),
    )
}

/// A renderer holding what one generation pass needs: the configuration
/// and the interface model.
pub struct KotlinWrapper {
    pub config: Config,
    pub ci: ComponentInterface,
}

impl KotlinWrapper {
    /// Packages a configuration and an interface model for one generation
    /// pass.
    pub fn new(config: Config, ci: ComponentInterface) -> (w: KotlinWrapper)
        ensures
            w.config == config,
            w.ci == ci,
    {
        KotlinWrapper { config, ci }
    }

    /// Generates the complete Kotlin source text.
    pub fn generate(&self) -> (r: Result<String, GenError>)
        ensures
            match r {
                Ok(s) => interface_supported(self.ci) && s@ == spec_kotlin_wrapper(
                    self.config.package_name@,
                    self.ci,
                ),
                Err(e) => !interface_supported(self.ci) && e == spec_generate_error(self.ci),
            },
    {
        generate_kotlin(&self.config, &self.ci)
    }
}

/// Determinism: the generated text is a function of the configuration and
/// the interface model alone, so generating twice from identical input
/// yields byte-identical output.
pub proof fn lemma_generation_deterministic(
    a: KotlinWrapper,
    b: KotlinWrapper,
    r1: Seq<char>,
    r2: Seq<char>,
)
    requires
        a.config.package_name@ == b.config.package_name@,
        a.ci == b.ci,
        r1 == spec_kotlin_wrapper(a.config.package_name@, a.ci),
        r2 == spec_kotlin_wrapper(b.config.package_name@, b.ci),
    ensures
        r1 == r2,
{
}

} // verus!
