use vstd::prelude::*;
use vstd::string::*;

use crate::config::Config;
use crate::constant::{number, number_value};
use crate::error::{error_of, CompileError, ErrorKind, ErrorView};
use crate::ir::{Alloca, Constant, Operand, Types};
use crate::types::{size_of, TypeFlatter};
use crate::utils::name::{tidy, tidy_name, yul_ident_name, yul_name};
use crate::yuler::ident::{ident_views, Ident};
use crate::yuler::statement::{stmt_views, Statement, StatementView};
use crate::yuler::value::{lemma_call_args, FunctionCall, FunctionCallView, Value, ValueView};
use crate::yuler::variable::{VariableDeclare, VariableDeclareView};

verus! {

/// The built-in that hands out memory.
pub open spec fn allocate_builtin() -> Seq<char> {
    "__yul_allocate"@
}

/// How many elements an allocation asks for: its count must be a
/// constant, and an integer.
pub open spec fn num_elements(num: &Operand) -> Result<u64, ErrorView> {
    match num {
        Operand::LocalOperand { name, ty } => Err(
            error_of(ErrorKind::DynamicAllocaUnsupported, yul_name(name@)),
        ),
        Operand::ConstantOperand(c) => match c {
            Constant::Int { bits, value } => Ok(*value),
            _ => Err(error_of(ErrorKind::WrongArgument, Seq::empty())),
        },
        Operand::MetadataOperand => Err(
            error_of(ErrorKind::DynamicAllocaUnsupported, Seq::empty()),
        ),
    }
}

/// How many bytes the allocation `inst` asks for: the size of its type
/// times the number of its elements.
pub open spec fn alloca_size(types: &Types, config: &Config, inst: &Alloca, fuel: nat) -> Result<
    u64,
    ErrorView,
> {
    match size_of(types, config, &inst.allocated_type, fuel) {
        Err(e) => Err(e),
        Ok(size) => match num_elements(&inst.num_elements) {
            Err(e) => Err(e),
            Ok(count) => if size * count > u64::MAX {
                Err(error_of(ErrorKind::SizeOverflow, Seq::empty()))
            } else {
                Ok((size * count) as u64)
            },
        },
    }
}

/// The statements that the allocation `inst` lowers to: one declaration
/// that binds the destination to a call of the allocator with the size.
pub open spec fn lowered_alloca(types: &Types, config: &Config, inst: &Alloca, fuel: nat) -> Result<
    Seq<StatementView>,
    ErrorView,
> {
    match alloca_size(types, config, inst, fuel) {
        Err(e) => Err(e),
        Ok(total) => Ok(
            seq![
                StatementView::VariableDeclare(
                    VariableDeclareView {
                        names: seq![tidy(yul_name(inst.dest@))],
                        value: ValueView::FunctionCall(
                            FunctionCallView { name: allocate_builtin(), args: seq![number(total)] },
                        ),
                    },
                ),
            ],
        ),
    }
}

/// Whether the outcome `r` is the statements or the error that `s` gives.
pub open spec fn stmts_outcome(
    r: Result<Vec<Statement>, CompileError>,
    s: Result<Seq<StatementView>, ErrorView>,
) -> bool {
    match r {
        Ok(v) => s == Ok::<Seq<StatementView>, ErrorView>(stmt_views(v@)),
        Err(e) => s == Err::<Seq<StatementView>, ErrorView>(e@),
    }
}

/// The declaration of the one variable `name`, bound to `value`.
pub fn declare_one(name: String, value: Value) -> (r: Statement)
    ensures
        r@ == StatementView::VariableDeclare(
            VariableDeclareView { names: seq![name@], value: value@ },
        ),
{
    let mut names: Vec<Ident> = Vec::new();
    names.push(Ident(name));
    assert(ident_views(names@) =~= seq![name@]);
    Statement::VariableDeclare(VariableDeclare { names, value })
}

/// The list of the one statement `s`.
pub fn one_stmt(s: Statement) -> (r: Vec<Statement>)
    ensures
        stmt_views(r@) == seq![s@],
{
    let mut out: Vec<Statement> = Vec::new();
    out.push(s);
    assert(stmt_views(out@) =~= seq![s@]);
    out
}

/// How many elements an allocation asks for.
pub fn build_num_elements(num: &Operand) -> (r: Result<u64, CompileError>)
    ensures
        match num_elements(num) {
            Ok(n) => r == Ok::<u64, CompileError>(n),
            Err(e) => r matches Err(x) && x@ == e,
        },
{
    match num {
        Operand::LocalOperand { name, ty: _ } => Err(
            CompileError::new(
                ErrorKind::DynamicAllocaUnsupported,
                yul_ident_name(name).as_str(),
            ),
        ),
        Operand::ConstantOperand(r) => match r {
            Constant::Int { bits: _, value } => Ok(*value),
            _ => Err(CompileError::bare(ErrorKind::WrongArgument)),
        },
        Operand::MetadataOperand => Err(CompileError::bare(ErrorKind::DynamicAllocaUnsupported)),
    }
}

/// Lowers one stack allocation.
pub struct AllocaCompiler<'a> {
    pub inst: &'a Alloca,
    pub types: &'a Types,
    pub config: &'a Config,
}

impl<'a> AllocaCompiler<'a> {
    /// A compiler for `inst`.
    pub fn new(inst: &'a Alloca, types: &'a Types, config: &'a Config) -> (r: Self)
        ensures
            r.inst == inst,
            r.types == types,
            r.config == config,
    {
        AllocaCompiler { inst, types, config }
    }

    /// Lowers the allocation.
    pub fn compile(&self) -> (r: Result<Vec<Statement>, CompileError>)
        ensures
            stmts_outcome(
                r,
                lowered_alloca(
                    self.types,
                    self.config,
                    self.inst,
                    self.types.named_struct_defs@.len() as nat,
                ),
            ),
    {
        let flatter = TypeFlatter::new(self.types, self.config);
        let size = match flatter.compute_size(&self.inst.allocated_type) {
            Ok(s) => s,
            Err(e) => {
                return Err(e);
            },
        };
        let num_elem = match build_num_elements(&self.inst.num_elements) {
            Ok(n) => n,
            Err(e) => {
                return Err(e);
            },
        };
        let total_size = match size.checked_mul(num_elem) {
            Some(t) => t,
            None => {
                return Err(CompileError::bare(ErrorKind::SizeOverflow));
            },
        };
        let dest = yul_ident_name(&self.inst.dest);
        let dest = tidy_name(dest.as_str());
        let mut args: Vec<Value> = Vec::new();
        args.push(number_value(total_size));
        let call = FunctionCall { name: Ident("__yul_allocate".to_owned()), args };
        proof {
            lemma_call_args(&call);
            assert(call@.args =~= seq![number(total_size)]);
        }
        Ok(one_stmt(declare_one(dest, Value::FunctionCall(call))))
    }
}

} // verus!
