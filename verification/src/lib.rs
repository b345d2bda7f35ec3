//! Generator of Kotlin bindings for a native component interface.
//!
//! Given a language-neutral description of a component's public surface
//! (enums, records, functions over a closed type grammar), this library
//! produces the Kotlin source text that calls into the component across a
//! C-compatible foreign-function boundary, together with a verified model
//! of the binary buffer protocol that the generated code and the native
//! side share.

pub mod buffers;
pub mod codec;
pub mod emitter;
pub mod errors;
pub mod filters;
pub mod interface;
