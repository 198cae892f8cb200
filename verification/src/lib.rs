//! A compiler for a small statically typed imperative language that emits
//! textual LLVM IR. Every phase is a function of this library, with its
//! behaviour stated over mathematical models of the syntax tree.
pub mod ast;
pub mod ast_printer;
pub mod table;
pub mod text;
pub mod optimizer;
pub mod semantic_analysis;
pub mod parser;
pub mod parser_errors;
pub mod code_generation;
pub mod compiler;
