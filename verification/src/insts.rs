//! The lowering of each supported kind of instruction.
pub mod alloca;
pub mod call;
pub mod extractvalue;
pub mod insertvalue;
pub mod operand;
pub mod ptr_int;
pub mod select;
