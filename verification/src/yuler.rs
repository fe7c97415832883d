//! The Yul syntax tree and the writer that renders it as text.
pub mod error;
pub mod ident;
pub mod literal;
pub mod object;
pub mod statement;
pub mod value;
pub mod variable;
pub mod writer;
