//! Markdown note normalizer: a structured note model, its parser from a
//! generic Markdown syntax tree, its canonical printer, the inline renderer
//! they share, the outline recognizer, and metadata normalization.

pub mod ast;
pub mod chunk;
pub mod config;
pub mod date;
pub mod debug;
pub mod error;
pub mod escape;
pub mod index;
pub mod metadata;
pub mod model;
pub mod parser;
pub mod printer;
pub mod quoted_args;
pub mod render;
pub mod text;
pub mod toc;
pub mod tree_debug;
