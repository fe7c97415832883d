use vstd::prelude::*;
use vstd::string::*;

use crate::error::{error_of, CompileError, ErrorKind, ErrorView};
use crate::insts::alloca::{declare_one, one_stmt, stmts_outcome};
use crate::ir::{ExtractValue, Name, Operand, Type};
use crate::types::{indexed, indexed_name};
use crate::utils::name::{tidy, tidy_name, yul_ident_name, yul_name};
use crate::yuler::ident::Ident;
use crate::yuler::statement::{Statement, StatementView};
use crate::yuler::value::{Value, ValueView};
use crate::yuler::variable::VariableDeclareView;

verus! {

/// The name of the aggregate that is read: the operand must be a local
/// value of a struct or array type.
pub open spec fn aggregate_name(op: &Operand) -> Result<Seq<char>, ErrorView> {
    match op {
        Operand::LocalOperand { name, ty } => match ty {
            Type::StructType { element_types, is_packed } => Ok(tidy(yul_name(name@))),
            Type::ArrayType { element_type, num_elements } => Ok(tidy(yul_name(name@))),
            _ => Err(error_of(ErrorKind::WrongArgument, yul_name(name@))),
        },
        _ => Err(error_of(ErrorKind::WrongArgument, Seq::empty())),
    }
}

/// The slot that the one index `index` of the aggregate named `base`
/// stands for: `base` itself for index 0, else `base` with the index behind.
pub open spec fn slot_name(base: Seq<char>, index: u32) -> Seq<char> {
    if index == 0 {
        base
    } else {
        indexed(base, index as nat)
    }
}

/// The statements that the read `inst` lowers to: one declaration that
/// binds the destination to the slot read. The read must go through
/// exactly one index.
pub open spec fn lowered_extract_value(inst: &ExtractValue) -> Result<Seq<StatementView>, ErrorView> {
    match aggregate_name(&inst.aggregate) {
        Err(e) => Err(e),
        Ok(base) => if inst.indices@.len() != 1 {
            Err(error_of(ErrorKind::MultiIndexUnsupported, base))
        } else {
            Ok(
                seq![
                    StatementView::VariableDeclare(
                        VariableDeclareView {
                            names: seq![tidy(yul_name(inst.dest@))],
                            value: ValueView::Ident(slot_name(base, inst.indices@[0])),
                        },
                    ),
                ],
            )
        },
    }
}

/// The name of the aggregate that is read.
pub fn check_arg(op: &Operand) -> (r: Result<String, CompileError>)
    ensures
        match aggregate_name(op) {
            Ok(n) => r matches Ok(s) && s@ == n,
            Err(e) => r matches Err(x) && x@ == e,
        },
{
    match op {
        Operand::LocalOperand { name, ty } => match ty {
            Type::StructType { element_types: _, is_packed: _ } => {
                let n = yul_ident_name(name);
                Ok(tidy_name(n.as_str()))
            },
            Type::ArrayType { element_type: _, num_elements: _ } => {
                let n = yul_ident_name(name);
                Ok(tidy_name(n.as_str()))
            },
            _ => Err(
                CompileError::new(ErrorKind::WrongArgument, yul_ident_name(name).as_str()),
            ),
        },
        _ => Err(CompileError::bare(ErrorKind::WrongArgument)),
    }
}

/// The slot that index `index` of the aggregate named `base` stands for.
pub fn build_from_name(base: &str, index: u32) -> (r: String)
    ensures
        r@ == slot_name(base@, index),
{
    if index == 0 {
        base.to_owned()
    } else {
        indexed_name(base, index as usize)
    }
}

/// Lowers one read of an aggregate's part.
pub struct ExtractValueCompiler<'a> {
    pub inst: &'a ExtractValue,
}

impl<'a> ExtractValueCompiler<'a> {
    /// A compiler for `inst`.
    pub fn new(inst: &'a ExtractValue) -> (r: Self)
        ensures
            r.inst == inst,
    {
        ExtractValueCompiler { inst }
    }

    /// Lowers the read.
    pub fn compile(&self) -> (r: Result<Vec<Statement>, CompileError>)
        ensures
            stmts_outcome(r, lowered_extract_value(self.inst)),
    {
        let name = match check_arg(&self.inst.aggregate) {
            Ok(n) => n,
            Err(e) => {
                return Err(e);
            },
        };
        if self.inst.indices.len() != 1 {
            return Err(CompileError::new(ErrorKind::MultiIndexUnsupported, name.as_str()));
        }
        let from = build_from_name(name.as_str(), self.inst.indices[0]);
        let to = yul_ident_name(&self.inst.dest);
        let to = tidy_name(to.as_str());
        Ok(one_stmt(declare_one(to, Value::Ident(Ident(from)))))
    }
}

} // verus!
