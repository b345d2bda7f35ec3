//! The two error classes of the generator.
//!
//! A `GenError` is a generation-time failure: an interface item references a
//! type variant that no mapper supports. It identifies the offending type
//! and, once an emitter knows it, the declaring item; it aborts generation
//! for that item only.
//!
//! A `CodecError` models the runtime failures of the buffer protocol that
//! the generated code shares with the native side: a value that has no
//! buffer encoding, a buffer that does not decode, trailing bytes after a
//! decode, and an enum ordinal outside the declared range. All of them
//! indicate that the two sides disagree about the binary contract.

use vstd::prelude::*;
use crate::interface::TypeReference;

verus! {

/// A generation-time failure: an unsupported type variant was referenced.
#[derive(Debug, PartialEq, Eq)]
pub enum GenError {
    /// The unsupported type itself, as a mapper found it.
    UnsupportedType { unsupported: TypeReference },
    /// The unsupported type together with the interface item that
    /// referenced it, as an emitter reports it.
    UnsupportedTypeInItem { item: String, unsupported: TypeReference },
}

/// A runtime failure of the buffer protocol, as modelled by the codec.
#[derive(Debug, Clone, Copy, PartialEq, Eq)]
pub enum CodecError {
    /// The value does not conform to the schema type, so it has no wire
    /// encoding.
    Unencodable,
    /// The buffer's bytes do not decode as a value of the schema type.
    MalformedBuffer,
    /// Decoding finished but bytes remain unread: the two sides disagree
    /// about the schema.
    TrailingBytes,
    /// An enum ordinal lies outside the declared 1-based range.
    OrdinalOutOfRange,
}

} // verus!
