//! The bytecode back end: the opcode table, variable layout and
//! function index, the instruction stream and its byte encoding, and
//! the generator that lowers an annotated program.

pub mod byte_code_generator;
pub mod code_generator;
pub mod function_index;
pub mod instruction;
pub mod opcode;
pub mod simple_counter;
pub mod translate;
pub mod var_cache;
