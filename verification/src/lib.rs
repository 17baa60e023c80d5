//! Planning for the `#[resolver]` attribute: an inherent `impl` block whose
//! methods are tagged `#[query]`, `#[mutation]` or `#[subscription]` is split
//! into the original block (untagged items) and one wrapper type per kind in
//! use. This crate parses the block with `syn`, reads a plain model of it from
//! the parsed tree, and holds the verified decisions over that model; writing
//! the planned sections back out as tokens is the job of the procedural-macro
//! front end.

pub mod expansion;
pub mod kind;
pub mod laws;
pub mod outside;
pub mod parse;
pub mod positions;
pub mod properties;
pub mod resolver;
pub mod syntax;
pub mod text;
