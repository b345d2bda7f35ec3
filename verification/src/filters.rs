//! The declaration mapper and the lowering/lifting engine.
//!
//! Each function here maps a type reference (and, for lowering and lifting,
//! a Kotlin value expression) to the Kotlin source fragment that the surface
//! emitter splices into a declaration:
//! - `decl_c_argument` / `decl_c_return`: the type used in the foreign-call
//!   interface block;
//! - `decl_kt`: the type used in generated public Kotlin signatures;
//! - `lower_kt`: the expression that turns a Kotlin value into its
//!   foreign-call representation;
//! - `lift_kt`: the expression that turns a foreign-call result back into a
//!   Kotlin value;
//! - `deserialize_item_kt`: the expression that reads one value of a given
//!   type out of a byte buffer.
//!
//! Referencing a type variant that a mapper does not support is a hard
//! generation-time failure: the mapper returns a `GenError` naming the
//! offending type, and never a degraded fragment.

use vstd::prelude::*;
use crate::errors::GenError;
use crate::interface::TypeReference;

verus! {

/// The base type under any nest of `Optional` wrappers.
pub open spec fn base_type(t: TypeReference) -> TypeReference
    decreases t,
{
    match t {
        TypeReference::Optional(inner) => base_type(*inner),
        _ => t,
    }
}

/// Whether the foreign-call declaration mappers support the type: every
/// variant but the `Object` extension point.
pub open spec fn c_mappable(t: TypeReference) -> bool {
    !(t is Object)
}

/// The Kotlin type used for the variant at the foreign-call boundary.
/// Booleans cross as a single byte, enums as their integer ordinal, and
/// every composite crosses as a buffer passed by value.
pub open spec fn spec_decl_c_argument(t: TypeReference) -> Seq<char> {
    match t {
        TypeReference::Boolean => "Byte"@,
        TypeReference::U32 => "Int"@,
        TypeReference::U64 => "Long"@,
        TypeReference::Float => "Float"@,
        TypeReference::Double => "Double"@,
        TypeReference::String => "String"@,
        TypeReference::Bytes => "RustBuffer.ByValue"@,
        TypeReference::Enum(_) => "Int"@,
        TypeReference::Record(_) => "RustBuffer.ByValue"@,
        TypeReference::Optional(_) => "RustBuffer.ByValue"@,
        TypeReference::Object(_) => Seq::empty(),
    }
}

/// The Kotlin type used for the variant in a foreign-call return position;
/// the same mapping as for arguments.
pub open spec fn spec_decl_c_return(t: TypeReference) -> Seq<char> {
    spec_decl_c_argument(t)
}

/// Whether `decl_kt` supports the type: its base type must not be the
/// `Object` extension point.
pub open spec fn kt_declarable(t: TypeReference) -> bool {
    !(base_type(t) is Object)
}

/// The Kotlin type used in generated public signatures: the native boolean
/// type, the named enum or record type, a nullable wrapper of the inner
/// mapping for `Optional`, and the foreign-call type for the rest. An
/// `Optional` directly inside another `Optional` is carried as
/// `java.util.Optional` (see `spec_boxed_decl_kt`), since a second `?`
/// would collapse the two levels.
pub open spec fn spec_decl_kt(t: TypeReference) -> Seq<char>
    decreases t, 0nat,
{
    match t {
        TypeReference::Boolean => "Boolean"@,
        TypeReference::Enum(name) => name@,
        TypeReference::Record(name) => name@,
        TypeReference::Optional(inner) => spec_boxed_decl_kt(*inner) + "?"@,
        _ => spec_decl_c_argument(t),
    }
}

/// The Kotlin type that carries a value inside an optional. Kotlin's `T??`
/// is the same type as `T?`, so a nested `Optional` level is carried as
/// `java.util.Optional`, which keeps every nesting level distinct; any
/// other type is carried as its ordinary declaration.
pub open spec fn spec_boxed_decl_kt(t: TypeReference) -> Seq<char>
    decreases t, 1nat,
{
    match t {
        TypeReference::Optional(inner) => "java.util.Optional<"@ + spec_boxed_decl_kt(*inner)
            + ">"@,
        _ => spec_decl_kt(t),
    }
}

/// The Kotlin expression that lowers the value expression `nm` of the given
/// type into its foreign-call representation. Scalars pass through;
/// booleans become a 1/0 byte; enum values become their 1-based wire
/// ordinal; composites are serialized into a buffer.
pub open spec fn spec_lower_kt(nm: Seq<char>, t: TypeReference) -> Seq<char> {
    match t {
        TypeReference::Boolean => "(if ("@ + nm + ") { 1 } else { 0 })"@,
        TypeReference::Enum(_) => "("@ + nm + ".ordinal + 1)"@,
        TypeReference::Record(_) => nm + ".serializeForRust()"@,
        TypeReference::Optional(_) => nm + ".serializeForRust()"@,
        TypeReference::Object(_) => Seq::empty(),
        _ => nm,
    }
}

/// Whether `deserialize_item_kt` supports the type: the same condition as
/// `decl_kt`, since the default arm names the declared Kotlin type.
pub open spec fn deser_supported(t: TypeReference) -> bool {
    kt_declarable(t)
}

/// The Kotlin expression that reads one value of the given type out of the
/// byte buffer expression `nm`. An `Optional` reads its presence byte as a
/// boolean and, only when present, the inner value, mirroring the nesting
/// depth exactly (see `spec_boxed_deserialize_kt`); every other type reads
/// through its companion's reader.
pub open spec fn spec_deserialize_item_kt(nm: Seq<char>, t: TypeReference) -> Seq<char>
    decreases t, 0nat,
{
    match t {
        TypeReference::Optional(inner) => "(if (Boolean.deserializeItemFromRust("@ + nm + ")) { "@
            + spec_boxed_deserialize_kt(nm, *inner) + " } else { null })"@,
        _ => spec_decl_kt(t) + ".deserializeItemFromRust("@ + nm + ")"@,
    }
}

/// The Kotlin expression that reads a value standing inside an optional. A
/// nested `Optional` level reads its own presence byte and wraps the
/// result in `java.util.Optional`, so every nesting level stays distinct;
/// any other type reads as usual.
pub open spec fn spec_boxed_deserialize_kt(nm: Seq<char>, t: TypeReference) -> Seq<char>
    decreases t, 1nat,
{
    match t {
        TypeReference::Optional(inner) => "(if (Boolean.deserializeItemFromRust("@ + nm
            + ")) { java.util.Optional.of("@ + spec_boxed_deserialize_kt(nm, *inner)
            + ") } else { java.util.Optional.empty() })"@,
        _ => spec_deserialize_item_kt(nm, t),
    }
}

/// The Kotlin expression that lifts the foreign-call result expression `nm`
/// of the given type back into a Kotlin value. Scalars pass through;
/// booleans test against zero; enum ordinals go through the generated
/// `fromOrdinal`, which rejects an out-of-range ordinal; `Bytes`, records
/// and optionals decode the received buffer and free it.
pub open spec fn spec_lift_kt(nm: Seq<char>, t: TypeReference) -> Seq<char> {
    match t {
        TypeReference::Boolean => "("@ + nm + " != 0)"@,
        TypeReference::Enum(name) => name@ + ".fromOrdinal("@ + nm + ")"@,
        TypeReference::Bytes => "deserializeFromRust("@ + nm + ") { buf -> "@
            + spec_deserialize_item_kt("buf"@, t) + " }"@,
        TypeReference::Record(_) => "deserializeFromRust("@ + nm + ") { buf -> "@
            + spec_deserialize_item_kt("buf"@, t) + " }"@,
        TypeReference::Optional(_) => "deserializeFromRust("@ + nm + ") { buf -> "@
            + spec_deserialize_item_kt("buf"@, t) + " }"@,
        TypeReference::Object(_) => Seq::empty(),
        _ => nm,
    }
}

/// A deep copy of a type reference, equal to the original.
pub fn clone_type(t: &TypeReference) -> (r: TypeReference)
    ensures
        r == *t,
    decreases t,
{
    match t {
        TypeReference::Boolean => TypeReference::Boolean,
        TypeReference::U32 => TypeReference::U32,
        TypeReference::U64 => TypeReference::U64,
        TypeReference::Float => TypeReference::Float,
        TypeReference::Double => TypeReference::Double,
        TypeReference::String => TypeReference::String,
        TypeReference::Bytes => TypeReference::Bytes,
        TypeReference::Enum(name) => TypeReference::Enum(name.clone()),
        TypeReference::Record(name) => TypeReference::Record(name.clone()),
        TypeReference::Optional(inner) => TypeReference::Optional(Box::new(clone_type(&**inner))),
        TypeReference::Object(name) => TypeReference::Object(name.clone()),
    }
}

/// Maps a type to its foreign-call argument declaration, or fails naming
/// the unsupported type.
pub fn decl_c_argument(type_: &TypeReference) -> (r: Result<String, GenError>)
    ensures
        match r {
            Ok(s) => c_mappable(*type_) && s@ == spec_decl_c_argument(*type_),
            Err(e) => !c_mappable(*type_) && e == (GenError::UnsupportedType {
                unsupported: *type_,
            }),
        },
{
    match type_ {
        TypeReference::Boolean => Ok(String::from_str("Byte")),
        TypeReference::U32 => Ok(String::from_str("Int")),
        TypeReference::U64 => Ok(String::from_str("Long")),
        TypeReference::Float => Ok(String::from_str("Float")),
        TypeReference::Double => Ok(String::from_str("Double")),
        TypeReference::String => Ok(String::from_str("String")),
        TypeReference::Bytes => Ok(String::from_str("RustBuffer.ByValue")),
        TypeReference::Enum(_) => Ok(String::from_str("Int")),
        TypeReference::Record(_) => Ok(String::from_str("RustBuffer.ByValue")),
        TypeReference::Optional(_) => Ok(String::from_str("RustBuffer.ByValue")),
        TypeReference::Object(_) => Err(
            GenError::UnsupportedType { unsupported: clone_type(type_) },
        ),
    }
}

/// Maps a type to its foreign-call return declaration, or fails naming the
/// unsupported type.
pub fn decl_c_return(type_: &TypeReference) -> (r: Result<String, GenError>)
    ensures
        match r {
            Ok(s) => c_mappable(*type_) && s@ == spec_decl_c_return(*type_),
            Err(e) => !c_mappable(*type_) && e == (GenError::UnsupportedType {
                unsupported: *type_,
            }),
        },
{
    match type_ {
        TypeReference::String => Ok(String::from_str("String")),
        _ => decl_c_argument(type_),
    }
}

/// Maps a type to the Kotlin type used in generated public signatures, or
/// fails naming the unsupported base type.
pub fn decl_kt(type_: &TypeReference) -> (r: Result<String, GenError>)
    ensures
        match r {
            Ok(s) => kt_declarable(*type_) && s@ == spec_decl_kt(*type_),
            Err(e) => !kt_declarable(*type_) && e == (GenError::UnsupportedType {
                unsupported: base_type(*type_),
            }),
        },
    decreases type_, 0nat,
{
    match type_ {
        TypeReference::Boolean => Ok(String::from_str("Boolean")),
        TypeReference::Enum(name) => Ok(name.clone()),
        TypeReference::Record(name) => Ok(name.clone()),
        TypeReference::Optional(inner) => match boxed_decl_kt(&**inner) {
            Ok(s) => Ok(s.concat("?")),
            Err(e) => Err(e),
        },
        _ => decl_c_argument(type_),
    }
}

/// Maps a type to the Kotlin type that carries it inside an optional, or
/// fails naming the unsupported base type.
pub fn boxed_decl_kt(type_: &TypeReference) -> (r: Result<String, GenError>)
    ensures
        match r {
            Ok(s) => kt_declarable(*type_) && s@ == spec_boxed_decl_kt(*type_),
            Err(e) => !kt_declarable(*type_) && e == (GenError::UnsupportedType {
                unsupported: base_type(*type_),
            }),
        },
    decreases type_, 1nat,
{
    match type_ {
        TypeReference::Optional(inner) => match boxed_decl_kt(&**inner) {
            Ok(s) => Ok(String::from_str("java.util.Optional<").concat(s.as_str()).concat(">")),
            Err(e) => Err(e),
        },
        _ => decl_kt(type_),
    }
}

/// Produces the Kotlin expression that lowers the value expression `nm` of
/// the given type before a foreign call, or fails naming the unsupported
/// type.
pub fn lower_kt(nm: &str, type_: &TypeReference) -> (r: Result<String, GenError>)
    ensures
        match r {
            Ok(s) => c_mappable(*type_) && s@ == spec_lower_kt(nm@, *type_),
            Err(e) => !c_mappable(*type_) && e == (GenError::UnsupportedType {
                unsupported: *type_,
            }),
        },
{
    match type_ {
        TypeReference::Boolean => Ok(
            String::from_str("(if (").concat(nm).concat(") { 1 } else { 0 })"),
        ),
        TypeReference::Enum(_) => Ok(String::from_str("(").concat(nm).concat(".ordinal + 1)")),
        TypeReference::Record(_) => Ok(String::from_str(nm).concat(".serializeForRust()")),
        TypeReference::Optional(_) => Ok(String::from_str(nm).concat(".serializeForRust()")),
        TypeReference::Object(_) => Err(
            GenError::UnsupportedType { unsupported: clone_type(type_) },
        ),
        _ => Ok(String::from_str(nm)),
    }
}

/// Produces the Kotlin expression that reads one value of the given type
/// out of the byte buffer expression `nm`, or fails naming the unsupported
/// base type.
pub fn deserialize_item_kt(nm: &str, type_: &TypeReference) -> (r: Result<String, GenError>)
    ensures
        match r {
            Ok(s) => deser_supported(*type_) && s@ == spec_deserialize_item_kt(nm@, *type_),
            Err(e) => !deser_supported(*type_) && e == (GenError::UnsupportedType {
                unsupported: base_type(*type_),
            }),
        },
    decreases type_, 0nat,
{
    match type_ {
        TypeReference::Optional(inner) => match boxed_deserialize_kt(nm, &**inner) {
            Ok(s) => Ok(
                String::from_str("(if (Boolean.deserializeItemFromRust(").concat(nm).concat(
                    ")) { ",
                ).concat(s.as_str()).concat(" } else { null })"),
            ),
            Err(e) => Err(e),
        },
        _ => match decl_kt(type_) {
            Ok(s) => Ok(s.concat(".deserializeItemFromRust(").concat(nm).concat(")")),
            Err(e) => Err(e),
        },
    }
}

/// Produces the Kotlin expression that reads a value standing inside an
/// optional out of the byte buffer expression `nm`, or fails naming the
/// unsupported base type.
pub fn boxed_deserialize_kt(nm: &str, type_: &TypeReference) -> (r: Result<String, GenError>)
    ensures
        match r {
            Ok(s) => deser_supported(*type_) && s@ == spec_boxed_deserialize_kt(nm@, *type_),
            Err(e) => !deser_supported(*type_) && e == (GenError::UnsupportedType {
                unsupported: base_type(*type_),
            }),
        },
    decreases type_, 1nat,
{
    match type_ {
        TypeReference::Optional(inner) => match boxed_deserialize_kt(nm, &**inner) {
            Ok(s) => Ok(
                String::from_str("(if (Boolean.deserializeItemFromRust(").concat(nm).concat(
                    ")) { java.util.Optional.of(",
                ).concat(s.as_str()).concat(") } else { java.util.Optional.empty() })"),
            ),
            Err(e) => Err(e),
        },
        _ => deserialize_item_kt(nm, type_),
    }
}

/// Produces the Kotlin expression that lifts the foreign-call result
/// expression `nm` of the given type after a foreign call, or fails naming
/// the unsupported base type.
pub fn lift_kt(nm: &str, type_: &TypeReference) -> (r: Result<String, GenError>)
    ensures
        match r {
            Ok(s) => kt_declarable(*type_) && s@ == spec_lift_kt(nm@, *type_),
            Err(e) => !kt_declarable(*type_) && e == (GenError::UnsupportedType {
                unsupported: base_type(*type_),
            }),
        },
{
    match type_ {
        TypeReference::Boolean => Ok(String::from_str("(").concat(nm).concat(" != 0)")),
        TypeReference::Enum(name) => Ok(
            name.clone().concat(".fromOrdinal(").concat(nm).concat(")"),
        ),
        TypeReference::Bytes => match deserialize_item_kt("buf", type_) {
            Ok(s) => Ok(
                String::from_str("deserializeFromRust(").concat(nm).concat(") { buf -> ").concat(
                    s.as_str(),
                ).concat(" }"),
            ),
            Err(e) => Err(e),
        },
        TypeReference::Record(_) => match deserialize_item_kt("buf", type_) {
            Ok(s) => Ok(
                String::from_str("deserializeFromRust(").concat(nm).concat(") { buf -> ").concat(
                    s.as_str(),
                ).concat(" }"),
            ),
            Err(e) => Err(e),
        },
        TypeReference::Optional(_) => match deserialize_item_kt("buf", type_) {
            Ok(s) => Ok(
                String::from_str("deserializeFromRust(").concat(nm).concat(") { buf -> ").concat(
                    s.as_str(),
                ).concat(" }"),
            ),
            Err(e) => Err(e),
        },
        TypeReference::Object(_) => Err(
            GenError::UnsupportedType { unsupported: clone_type(type_) },
        ),
        _ => Ok(String::from_str(nm)),
    }
}

} // verus!
