//! Names, the table of built-ins, and the walks over the call graph and the
//! block graph.
pub mod builtin;
pub mod call_graph;
pub mod control_block;
pub mod name;
