use vstd::prelude::*;

use crate::error::CompileError;
use crate::insts::alloca::stmts_outcome;
use crate::ir::InsertValue;
use crate::yuler::statement::{stmt_views, Statement, StatementView};

verus! {

/// Lowers one write of an aggregate's part.
pub struct InsertValueCompiler<'a> {
    pub inst: &'a InsertValue,
}

/// No statements. Writes of an aggregate's part and phis lower to nothing.
pub fn no_stmts() -> (r: Result<Vec<Statement>, CompileError>)
    ensures
        stmts_outcome(r, Ok(Seq::<StatementView>::empty())),
{
    let out: Vec<Statement> = Vec::new();
    assert(stmt_views(out@) =~= Seq::empty());
    Ok(out)
}

impl<'a> InsertValueCompiler<'a> {
    /// A compiler for `inst`.
    pub fn new(inst: &'a InsertValue) -> (r: Self)
        ensures
            r.inst == inst,
    {
        InsertValueCompiler { inst }
    }

    /// Lowers the write: to no statement.
    pub fn compile(&self) -> (r: Result<Vec<Statement>, CompileError>)
        ensures
            stmts_outcome(r, Ok(Seq::<StatementView>::empty())),
    {
        no_stmts()
    }
}

} // verus!
