//! The core of a WebAssembly engine: a decoder for binary modules, the
//! instantiation pipeline, and the store that an interpreter runs over.
//!
//! Every function here is verified against a contract that is stated over
//! mathematical views of the data (`Seq`, `Map`, `int`).
//!
//! - `reader`, `decode`, `raw_module`: from bytes to a `RawModule`.
//! - `entities`, `const_expr`: globals, tables, memories and callables,
//!   and the evaluator of constant expressions.
//! - `module`, `host`: the store, the pipeline that builds it, and what
//!   the embedder supplies.
//! - `laws`, `pipeline_laws`: what holds of decoding and of instantiation
//!   as a whole.

pub mod const_expr;
pub mod decode;
pub mod entities;
pub mod error;
pub mod host;
pub mod laws;
pub mod module;
pub mod pipeline_laws;
pub mod raw_module;
pub mod reader;
pub mod types;
