//! A compiler core for a small imperative source language: the in-memory
//! program tree (`ast`), a recognizer for its surface grammar (`syntax`),
//! a diagnostic tree walker (`ast_processor`), and the code generator
//! (`codegen`) that lowers a tree into a target-language program through a
//! structured program builder (`builder`, bound to the crustal crate) and
//! serializes it. The lowering is pinned down by a mathematical lowering
//! function, and its guarantees - determinism, argument order, scoping of
//! emitted declarations, the shape of desugared repetitions, and the
//! uniqueness of synthetic counters (`names`) - are stated and proved in
//! `laws`.

pub mod ast;
pub mod ast_processor;
pub mod builder;
pub mod codegen;
pub mod emit;
pub mod laws;
pub mod names;
pub mod parser;
pub mod syntax;
pub mod text;
