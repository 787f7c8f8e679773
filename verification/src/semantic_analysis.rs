//! Semantic analysis: scope tables, the type checker for expressions,
//! the statement checker, return coverage, and diagnostic formatting.

pub mod analyze_return_stat;
pub mod body_check;
pub mod error_message_generator;
pub mod laws;
pub mod name_table;
pub mod stat_check;
pub mod type_check;
pub mod variable_check;
pub mod semantic_check;
pub mod semantic_error;
