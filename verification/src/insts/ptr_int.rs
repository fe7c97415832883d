use vstd::prelude::*;
use vstd::string::*;

use crate::constant::{number, number_value};
use crate::error::{error_of, CompileError, ErrorKind, ErrorView};
use crate::insts::alloca::{declare_one, one_stmt, stmts_outcome};
use crate::ir::{Constant, Name, Operand};
use crate::utils::name::{yul_ident_name, yul_name};
use crate::yuler::ident::Ident;
use crate::yuler::statement::{Statement, StatementView};
use crate::yuler::value::{Value, ValueView};
use crate::yuler::variable::VariableDeclareView;

verus! {

/// The value that a scalar operand stands for: the variable of a local
/// value, the number of a constant integer, zero for a null pointer.
pub open spec fn scalar_value(op: &Operand) -> Result<ValueView, ErrorView> {
    match op {
        Operand::LocalOperand { name, ty } => Ok(ValueView::Ident(yul_name(name@))),
        Operand::ConstantOperand(c) => match c {
            Constant::Int { bits, value } => Ok(number(*value)),
            Constant::Null(ty) => Ok(number(0)),
            _ => Err(error_of(ErrorKind::UnsupportedOperand, Seq::empty())),
        },
        Operand::MetadataOperand => Err(error_of(ErrorKind::UnsupportedOperand, Seq::empty())),
    }
}

/// The statements that a cast between pointer and integer lowers to: one
/// declaration that binds the destination to the operand's value.
pub open spec fn lowered_ptr_int(op: &Operand, dest: &Name) -> Result<Seq<StatementView>, ErrorView> {
    match scalar_value(op) {
        Err(e) => Err(e),
        Ok(v) => Ok(
            seq![
                StatementView::VariableDeclare(
                    VariableDeclareView { names: seq![yul_name(dest@)], value: v },
                ),
            ],
        ),
    }
}

/// The value that a scalar operand stands for.
pub fn build_scalar_value(op: &Operand) -> (r: Result<Value, CompileError>)
    ensures
        match scalar_value(op) {
            Ok(v) => r matches Ok(x) && x@ == v,
            Err(e) => r matches Err(x) && x@ == e,
        },
{
    match op {
        Operand::LocalOperand { name, ty: _ } => Ok(Value::Ident(Ident(yul_ident_name(name)))),
        Operand::ConstantOperand(constant) => match constant {
            Constant::Int { bits: _, value } => Ok(number_value(*value)),
            Constant::Null(_) => Ok(number_value(0)),
            _ => Err(CompileError::bare(ErrorKind::UnsupportedOperand)),
        },
        Operand::MetadataOperand => Err(CompileError::bare(ErrorKind::UnsupportedOperand)),
    }
}

/// Lowers one cast between pointer and integer.
pub struct PtrIntCompiler<'a> {
    pub operand: &'a Operand,
    pub dest: &'a Name,
}

impl<'a> PtrIntCompiler<'a> {
    /// A compiler for the cast of `operand` into `dest`.
    pub fn new(operand: &'a Operand, dest: &'a Name) -> (r: Self)
        ensures
            r.operand == operand,
            r.dest == dest,
    {
        PtrIntCompiler { operand, dest }
    }

    /// Lowers the cast.
    pub fn compile(&self) -> (r: Result<Vec<Statement>, CompileError>)
        ensures
            stmts_outcome(r, lowered_ptr_int(self.operand, self.dest)),
    {
        let dest = yul_ident_name(self.dest);
        match build_scalar_value(self.operand) {
            Ok(value) => Ok(one_stmt(declare_one(dest, value))),
            Err(e) => Err(e),
        }
    }
}

} // verus!
