//! A parser for HTML-like markup in six dialects: HTML, Vue, Svelte, Astro,
//! Jinja and Vento.
//!
//! The parser walks the bytes of the source text once and builds a syntax
//! tree whose leaves are spans, byte ranges of the source.
//!
//! - [`span`], [`error`], [`ast`]: the data that the parser gives out.
//! - [`model`]: the mathematical model of a syntax tree.
//! - [`scan`], [`names`], [`leaf`], [`tree`]: the grammar, as spec
//!   functions from a source and an offset to what is read there.
//! - [`parser`]: the parser. Every routine of it is proved to return
//!   exactly what its grammar rule says.
//! - [`sound`], [`chars`]: what holds of every tree that the parser
//!   builds.
//! - [`laws`], [`progress`], [`boundaries`]: laws of the grammar.

pub mod span;
pub mod error;
pub mod ast;
pub mod model;
pub mod scan;
pub mod names;
pub mod leaf;
pub mod tree;
pub mod parser;
pub mod sound;
pub mod chars;
pub mod laws;
pub mod progress;
pub mod boundaries;
