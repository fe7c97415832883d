//! Lowering of LLVM-IR modules to Yul objects.
//!
//! The crate has two halves. `yuler` is the Yul syntax tree and its
//! pretty-printer. The rest lowers a module of the intermediate representation
//! in `ir` to that tree: type flattening, call-graph reachability, instruction
//! and call lowering, control-flow reconstruction, and the object compiler
//! that ties them together.
pub mod block;
pub mod cli;
pub mod compiler;
pub mod config;
pub mod constant;
pub mod error;
pub mod function;
pub mod insts;
pub mod ir;
pub mod text;
pub mod types;
pub mod utils;
pub mod yuler;
