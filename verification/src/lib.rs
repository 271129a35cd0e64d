//! Semantic front end for Quill, a small language for describing quantum
//! circuits: a recursive-descent parser from source text to an abstract
//! syntax tree, a single-pass context-sensitive type and shape checker, and
//! an assignment-style heuristic.

pub mod ast;
pub mod optimizations;
pub mod parser;
pub mod type_checker;
