use vstd::prelude::*;
use vstd::string::*;

use crate::constant::{number, number_value};
use crate::error::{error_of, CompileError, ErrorKind, ErrorView};
use crate::insts::alloca::{declare_one, stmts_outcome};
use crate::ir::{Constant, Operand, Select, Type};
use crate::utils::name::{yul_ident_name, yul_name};
use crate::yuler::ident::{ident_views, Ident};
use crate::yuler::statement::{lemma_block_view, stmt_views, Block, If, IfView, Statement, StatementView};
use crate::yuler::value::{Value, ValueView};
use crate::yuler::variable::{Assignment, AssignmentView, VariableDeclareView};

verus! {

/// The variable that a select's condition is: the condition must be a
/// local value of the one-bit integer type.
pub open spec fn condition_name(op: &Operand) -> Result<Seq<char>, ErrorView> {
    match op {
        Operand::LocalOperand { name, ty } => match ty {
            Type::IntegerType { bits } => if *bits == 1 {
                Ok(yul_name(name@))
            } else {
                Err(error_of(ErrorKind::InvalidSelectCondition, yul_name(name@)))
            },
            _ => Err(error_of(ErrorKind::InvalidSelectCondition, yul_name(name@))),
        },
        _ => Err(error_of(ErrorKind::InvalidSelectCondition, Seq::empty())),
    }
}

/// The value that one branch of a select stands for: the variable of a
/// local integer or pointer, or the number of a constant integer.
pub open spec fn branch_value(op: &Operand) -> Result<ValueView, ErrorView> {
    match op {
        Operand::LocalOperand { name, ty } => match ty {
            Type::IntegerType { bits } => Ok(ValueView::Ident(yul_name(name@))),
            Type::PointerType { addr_space } => Ok(ValueView::Ident(yul_name(name@))),
            _ => Err(error_of(ErrorKind::UnsupportedOperand, yul_name(name@))),
        },
        Operand::ConstantOperand(c) => match c {
            Constant::Int { bits, value } => Ok(number(*value)),
            _ => Err(error_of(ErrorKind::UnsupportedOperand, Seq::empty())),
        },
        Operand::MetadataOperand => Err(error_of(ErrorKind::UnsupportedOperand, Seq::empty())),
    }
}

/// The two statements of a select: `dest` is declared as `if_false`, and
/// set to `if_true` where `cond` is not zero.
pub open spec fn select_stmts(
    dest: Seq<char>,
    cond: Seq<char>,
    if_true: ValueView,
    if_false: ValueView,
) -> Seq<StatementView> {
    seq![
        StatementView::VariableDeclare(VariableDeclareView { names: seq![dest], value: if_false }),
        StatementView::If(
            IfView {
                cond: ValueView::Ident(cond),
                block: seq![
                    StatementView::Assignment(
                        AssignmentView { names: seq![dest], value: if_true },
                    ),
                ],
            },
        ),
    ]
}

/// The statements that the select `select` lowers to.
pub open spec fn lowered_select(select: &Select) -> Result<Seq<StatementView>, ErrorView> {
    match condition_name(&select.condition) {
        Err(e) => Err(e),
        Ok(cond) => match branch_value(&select.false_value) {
            Err(e) => Err(e),
            Ok(if_false) => match branch_value(&select.true_value) {
                Err(e) => Err(e),
                Ok(if_true) => Ok(select_stmts(yul_name(select.dest@), cond, if_true, if_false)),
            },
        },
    }
}

/// The value that one branch of a select stands for.
pub fn build_operand_value_for_select(operand: &Operand) -> (r: Result<Value, CompileError>)
    ensures
        match branch_value(operand) {
            Ok(v) => r matches Ok(x) && x@ == v,
            Err(e) => r matches Err(x) && x@ == e,
        },
{
    match operand {
        Operand::LocalOperand { name, ty } => match ty {
            Type::IntegerType { bits: _ } => Ok(Value::Ident(Ident(yul_ident_name(name)))),
            Type::PointerType { addr_space: _ } => Ok(Value::Ident(Ident(yul_ident_name(name)))),
            _ => Err(
                CompileError::new(ErrorKind::UnsupportedOperand, yul_ident_name(name).as_str()),
            ),
        },
        Operand::ConstantOperand(constant) => match constant {
            Constant::Int { bits: _, value } => Ok(number_value(*value)),
            _ => Err(CompileError::bare(ErrorKind::UnsupportedOperand)),
        },
        Operand::MetadataOperand => Err(CompileError::bare(ErrorKind::UnsupportedOperand)),
    }
}

/// The variable that a select's condition is.
pub fn build_condition(operand: &Operand) -> (r: Result<String, CompileError>)
    ensures
        match condition_name(operand) {
            Ok(n) => r matches Ok(x) && x@ == n,
            Err(e) => r matches Err(x) && x@ == e,
        },
{
    match operand {
        Operand::LocalOperand { name, ty } => {
            let n = yul_ident_name(name);
            match ty {
                Type::IntegerType { bits } => {
                    if *bits == 1 {
                        Ok(n)
                    } else {
                        Err(CompileError::new(ErrorKind::InvalidSelectCondition, n.as_str()))
                    }
                },
                _ => Err(CompileError::new(ErrorKind::InvalidSelectCondition, n.as_str())),
            }
        },
        _ => Err(CompileError::bare(ErrorKind::InvalidSelectCondition)),
    }
}

/// Lowers one select.
pub struct SelectCompiler<'a> {
    pub select: &'a Select,
}

impl<'a> SelectCompiler<'a> {
    /// A compiler for `select`.
    pub fn new(select: &'a Select) -> (r: Self)
        ensures
            r.select == select,
    {
        SelectCompiler { select }
    }

    /// Lowers the select.
    pub fn compile(&self) -> (r: Result<Vec<Statement>, CompileError>)
        ensures
            stmts_outcome(r, lowered_select(self.select)),
    {
        let dest = yul_ident_name(&self.select.dest);
        let name = match build_condition(&self.select.condition) {
            Ok(n) => n,
            Err(e) => {
                return Err(e);
            },
        };
        let if_false = match build_operand_value_for_select(&self.select.false_value) {
            Ok(v) => v,
            Err(e) => {
                return Err(e);
            },
        };
        let if_true = match build_operand_value_for_select(&self.select.true_value) {
            Ok(v) => v,
            Err(e) => {
                return Err(e);
            },
        };
        let ghost want = select_stmts(dest@, name@, if_true@, if_false@);
        let mut names: Vec<Ident> = Vec::new();
        names.push(Ident(dest.clone()));
        assert(ident_views(names@) =~= seq![dest@]);
        let mut inner: Vec<Statement> = Vec::new();
        inner.push(Statement::Assignment(Assignment { names, value: if_true }));
        let block = Block(inner);
        proof {
            lemma_block_view(&block);
            assert(block@ =~= seq![
                StatementView::Assignment(AssignmentView { names: seq![dest@], value: if_true@ }),
            ]);
        }
        let mut res: Vec<Statement> = Vec::new();
        res.push(declare_one(dest, if_false));
        res.push(Statement::If(If { cond: Value::Ident(Ident(name)), block }));
        assert(stmt_views(res@) =~= want);
        Ok(res)
    }
}

/// What a scalar value is worth where the variables are worth what `env`
/// says: a variable is looked up, a decimal literal is its number. Other
/// values are worth zero here.
pub open spec fn value_of(env: Map<Seq<char>, nat>, v: ValueView) -> nat {
    match v {
        ValueView::Ident(n) => env[n],
        ValueView::Literal(l) => match l {
            crate::yuler::literal::LiteralView::Number(k) => k as nat,
            _ => 0,
        },
        ValueView::FunctionCall(c) => 0,
    }
}

/// What the variables are worth after the statement `s`, for declarations
/// and assignments of one variable and for conditionals over them. Other
/// statements leave the variables as they are.
pub open spec fn run_stmt(env: Map<Seq<char>, nat>, s: StatementView) -> Map<Seq<char>, nat>
    decreases s,
{
    match s {
        StatementView::VariableDeclare(d) => if d.names.len() == 1 {
            env.insert(d.names[0], value_of(env, d.value))
        } else {
            env
        },
        StatementView::Assignment(a) => if a.names.len() == 1 {
            env.insert(a.names[0], value_of(env, a.value))
        } else {
            env
        },
        StatementView::If(i) => if value_of(env, i.cond) != 0 {
            run_stmts(env, i.block, 0)
        } else {
            env
        },
        _ => env,
    }
}

/// What the variables are worth after the statements from position `i` on.
pub open spec fn run_stmts(env: Map<Seq<char>, nat>, b: Seq<StatementView>, i: nat) -> Map<
    Seq<char>,
    nat,
>
    decreases b, b.len() - i,
{
    if i >= b.len() {
        env
    } else {
        run_stmts(run_stmt(env, b[i as int]), b, i + 1)
    }
}

/// A lowered select selects: after its two statements the destination is
/// worth what the true value was worth where the condition was not zero,
/// and what the false value was worth where it was zero. The destination
/// must be a variable of its own: neither the condition nor the true value.
pub proof fn lemma_select_lowering(
    env: Map<Seq<char>, nat>,
    dest: Seq<char>,
    cond: Seq<char>,
    if_true: ValueView,
    if_false: ValueView,
)
    requires
        dest != cond,
        if_true != ValueView::Ident(dest),
    ensures
        run_stmts(env, select_stmts(dest, cond, if_true, if_false), 0)[dest] == (if env[cond] != 0 {
            value_of(env, if_true)
        } else {
            value_of(env, if_false)
        }),
{
    let stmts = select_stmts(dest, cond, if_true, if_false);
    let e1 = run_stmt(env, stmts[0]);
    assert(e1 == env.insert(dest, value_of(env, if_false)));
    assert(e1[cond] == env[cond]);
    let e2 = run_stmt(e1, stmts[1]);
    reveal_with_fuel(run_stmts, 4);
    assert(run_stmts(env, stmts, 0) == e2);
    if env[cond] != 0 {
        let inner = stmts[1]->If_0.block;
        assert(run_stmts(e1, inner, 0) == run_stmt(e1, inner[0]));
        assert(value_of(e1, if_true) == value_of(env, if_true));
    }
}

} // verus!
