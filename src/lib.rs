//! Orchestration and normalisation layer for compiler-explorer style requests:
//! a request is compiled, each requested function is disassembled, and the raw
//! disassembly is reduced to a flat, compiler-keyed instruction listing.
//!
//! The processes and the network are driven by the caller: the library decides,
//! through [`pipeline::Pipeline`], what to run next and what the result is.

pub mod normalize;
pub mod paths;
pub mod command;
pub mod forward;
pub mod lines;
pub mod pipeline;
