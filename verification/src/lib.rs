//! Core of a compiler for Simpla, a small statically-typed imperative
//! language: the position-tagged syntax tree, the semantic analyzer that
//! types and validates a parsed program, and the bytecode generator that
//! lowers an annotated program to a stack-machine opcode stream.

pub mod extract_line_error;
pub mod generator;
pub mod semantic_analysis;
pub mod syntax_tree;
