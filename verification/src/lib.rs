//! A model of MiniZinc programs.
//!
//! - `model`: the abstract syntax (types, expressions, generators, goals,
//!   whole programs) and its mathematical counterpart.
//! - `cst`: a concrete syntax tree held as plain values.
//! - `source`: reading source text into such a tree with tree-sitter.
//! - `visit`: reading a concrete syntax tree into the abstract syntax.
//! - `generator`: merging the generator clauses of comprehensions.
//! - `display`: rendering a model as MiniZinc text.
//! - `check`: deciding beforehand whether reading a tree, or rendering a
//!   model, can go through.
//! - `visit_display`: why a model read from a tree can be rendered.
//! - `warning`: what reading a tree passes over and reports, in order.
//! - `reading_laws`: what reading keeps of generators, goals, items and
//!   declarations, and which operators are rendered between their operands.
//! - `text`: comparing, rendering and reading text and integers.
pub mod model;
pub mod generator;
pub mod text;
pub mod cst;
pub mod display;
pub mod visit;
pub mod source;
pub mod check;
pub mod visit_display;
pub mod warning;
pub mod reading_laws;
