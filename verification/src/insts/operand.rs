use vstd::prelude::*;
use vstd::string::*;

use crate::config::Config;
use crate::constant::{constant_values, values_outcome, ConstantFlatter};
use crate::error::{error_of, CompileError, ErrorKind, ErrorView};
use crate::ir::{Operand, Types};
use crate::types::{slots, TypeFlatter};
use crate::utils::name::{tidy, yul_ident_name, yul_name};
use crate::yuler::ident::{ident_views, Ident};
use crate::yuler::value::{value_views, Value, ValueView};

verus! {

/// The variables named `names`, as values.
pub open spec fn ident_values(names: Seq<Seq<char>>) -> Seq<ValueView> {
    Seq::new(names.len(), |i: int| ValueView::Ident(names[i]))
}

/// The values that stand for the slots of the operand `op`: the slots of a
/// local value by their names, those of a constant by its literals.
pub open spec fn operand_values(types: &Types, config: &Config, op: &Operand, fuel: nat) -> Result<
    Seq<ValueView>,
    ErrorView,
> {
    match op {
        Operand::LocalOperand { name, ty } => match slots(
            types,
            config,
            tidy(yul_name(name@)),
            ty,
            false,
            fuel,
        ) {
            Ok(s) => Ok(ident_values(s)),
            Err(e) => Err(e),
        },
        Operand::ConstantOperand(c) => constant_values(types, config, c, fuel),
        Operand::MetadataOperand => Err(error_of(ErrorKind::UnsupportedOperand, Seq::empty())),
    }
}

/// The values that stand for the operand `op` where no struct is taken
/// apart: a local value is the one variable of its name, a constant is its
/// literals.
pub open spec fn plain_values(types: &Types, config: &Config, op: &Operand, fuel: nat) -> Result<
    Seq<ValueView>,
    ErrorView,
> {
    match op {
        Operand::LocalOperand { name, ty } => Ok(seq![ValueView::Ident(yul_name(name@))]),
        Operand::ConstantOperand(c) => constant_values(types, config, c, fuel),
        Operand::MetadataOperand => Err(error_of(ErrorKind::UnsupportedOperand, Seq::empty())),
    }
}

/// The variables named by `names`, as values.
pub fn idents_to_values(names: Vec<Ident>) -> (r: Vec<Value>)
    ensures
        value_views(r@) == ident_values(ident_views(names@)),
{
    let mut names = names;
    let ghost all = ident_views(names@);
    let mut out: Vec<Value> = Vec::new();
    let mut i: usize = 0;
    let n = names.len();
    while i < n
        invariant
            i <= n,
            n == names.len(),
            out.len() == i,
            ident_views(names@) == all,
            forall|j: int| 0 <= j < i ==> out@[j]@ == ValueView::Ident(all[j]),
        decreases n - i,
    {
        out.push(Value::Ident(names[i].clone()));
        i += 1;
    }
    assert(value_views(out@) =~= ident_values(all));
    out
}

/// The values that stand for the slots of `op`.
pub fn build_operand_values(types: &Types, config: &Config, op: &Operand) -> (r: Result<
    Vec<Value>,
    CompileError,
>)
    ensures
        values_outcome(
            r,
            operand_values(types, config, op, types.named_struct_defs@.len() as nat),
        ),
{
    match op {
        Operand::LocalOperand { name, ty } => {
            let flatter = TypeFlatter::new(types, config);
            match flatter.flatten_parameter(name, ty) {
                Ok(names) => Ok(idents_to_values(names)),
                Err(e) => Err(e),
            }
        },
        Operand::ConstantOperand(c) => {
            let flatter = ConstantFlatter::new(types, config);
            flatter.flatten(c)
        },
        Operand::MetadataOperand => Err(CompileError::bare(ErrorKind::UnsupportedOperand)),
    }
}

/// The values that stand for `op` where no struct is taken apart.
pub fn build_plain_values(types: &Types, config: &Config, op: &Operand) -> (r: Result<
    Vec<Value>,
    CompileError,
>)
    ensures
        values_outcome(
            r,
            plain_values(types, config, op, types.named_struct_defs@.len() as nat),
        ),
{
    match op {
        Operand::LocalOperand { name, ty: _ } => {
            let mut out: Vec<Value> = Vec::new();
            out.push(Value::Ident(Ident(yul_ident_name(name))));
            assert(value_views(out@) =~= seq![ValueView::Ident(yul_name(name@))]);
            Ok(out)
        },
        Operand::ConstantOperand(c) => {
            let flatter = ConstantFlatter::new(types, config);
            flatter.flatten(c)
        },
        Operand::MetadataOperand => Err(CompileError::bare(ErrorKind::UnsupportedOperand)),
    }
}

} // verus!
