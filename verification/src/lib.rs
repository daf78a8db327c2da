//! Descriptor-driven code generation and wire-format runtime for a
//! protobuf-style binary interchange format.
//!
//! The crate has three layers:
//!
//! * `code_writer` — an indentation-aware text builder that produces
//!   deterministic, well-formed generated source, including extraction of
//!   schema documentation comments.
//! * `wire` and `unknown` — the binary wire-format contract: varint
//!   encoding, tag packing, length-delimited framing, per-field size
//!   formulas, and the unknown-field store that preserves unrecognized
//!   data across decode/encode cycles.
//! * `descriptor`, `reflect`, `source_context` and `doctest` — the schema
//!   model, the reflection layer, and two generated-style message types
//!   (`SourceContext` with one string field, `MyMessage` with none) that
//!   exercise the runtime contract end to end.

pub mod code_writer;
pub mod descriptor;
pub mod doctest;
pub mod reflect;
pub mod source_context;
pub mod text;
pub mod unknown;
pub mod wire;

use vstd::prelude::*;

verus! {

} // verus!
