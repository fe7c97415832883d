use vstd::prelude::*;
use vstd::string::*;

use crate::config::Config;
use crate::constant::{number, values_outcome};
use crate::error::{error_of, CompileError, ErrorKind, ErrorView};
use crate::insts::alloca::{one_stmt, stmts_outcome};
use crate::insts::operand::{build_operand_values, operand_values};
use crate::insts::ptr_int::{build_scalar_value, scalar_value};
use crate::ir::{BasicBlock, Constant, Name, NameView, Ret, SwitchDest, Terminator, Type, Types};
use crate::types::{lemma_slot_count, return_base, slot_count, slots, TypeFlatter};
use crate::utils::name::{yul_ident_name, yul_name};
use crate::yuler::ident::{ident_views, Ident};
use crate::yuler::literal::{Literal, LiteralView, NumberLiteral};
use crate::yuler::statement::{
    clone_stmts,
    lemma_block_view,
    stmt_views,
    Block,
    CaseBlock,
    CaseBlockView,
    Statement,
    StatementView,
    Switch,
    SwitchView,
};
use crate::yuler::value::{lemma_call_args, value_views, FunctionCall, FunctionCallView, Value, ValueView};
use crate::yuler::variable::{Assignment, AssignmentView};

verus! {

/// The position of the first block named `name`, looking from position
/// `from` on.
pub open spec fn find_block(blocks: Seq<BasicBlock>, name: NameView, from: int) -> Option<int>
    decreases blocks.len() - from,
{
    if from < 0 || from >= blocks.len() {
        None
    } else if blocks[from].name@ == name {
        Some(from)
    } else {
        find_block(blocks, name, from + 1)
    }
}

/// One assignment for each slot: `dsts[i] := srcs[i]`.
pub open spec fn assignments(dsts: Seq<Seq<char>>, srcs: Seq<ValueView>) -> Seq<StatementView> {
    Seq::new(
        dsts.len(),
        |i: int|
            StatementView::Assignment(AssignmentView { names: seq![dsts[i]], value: srcs[i] }),
    )
}

/// The statements of a return: each slot of the function's result is set
/// from the slot of the returned value at the same place, and then the
/// function is left. A return without a value only leaves.
pub open spec fn return_stmts(
    types: &Types,
    config: &Config,
    return_type: &Type,
    ret: &Ret,
    fuel: nat,
) -> Result<Seq<StatementView>, ErrorView> {
    match ret.return_operand {
        None => Ok(seq![StatementView::Leave]),
        Some(op) => match slots(types, config, return_base(), return_type, true, fuel) {
            Err(e) => Err(e),
            Ok(dsts) => match operand_values(types, config, &op, fuel) {
                Err(e) => Err(e),
                Ok(srcs) => if srcs.len() != dsts.len() {
                    Err(error_of(ErrorKind::WrongArgument, Seq::empty()))
                } else {
                    Ok(assignments(dsts, srcs).push(StatementView::Leave))
                },
            },
        },
    }
}

/// A return of a value sets one slot for each slot of the function's
/// result, and then leaves; a return without a value only leaves.
pub proof fn lemma_return_shape(
    types: &Types,
    config: &Config,
    return_type: &Type,
    ret: &Ret,
    fuel: nat,
)
    ensures
        return_stmts(types, config, return_type, ret, fuel) matches Ok(s) ==> {
            &&& s.len() >= 1
            &&& s.last() == StatementView::Leave
            &&& forall|i: int| 0 <= i < s.len() - 1 ==> (#[trigger] s[i]) is Assignment
            &&& ret.return_operand is None ==> s.len() == 1
            &&& ret.return_operand is Some ==> s.len() == slot_count(
                types,
                config,
                return_type,
                fuel,
            ) + 1
        },
{
    lemma_slot_count(types, config, return_base(), return_type, true, fuel);
}

/// The literal of a switch case: the case's value must be a constant integer.
pub open spec fn case_literal(c: &Constant) -> Result<LiteralView, ErrorView> {
    match c {
        Constant::Int { bits, value } => Ok(LiteralView::Number(*value)),
        _ => Err(error_of(ErrorKind::UnsupportedOperand, Seq::empty())),
    }
}

/// The trap that stands for a place that is never reached.
pub open spec fn invalid_call() -> StatementView {
    StatementView::FunctionCall(FunctionCallView { name: "invalid"@, args: Seq::empty() })
}

/// What the body of a function is made from: the types, the function's
/// return type and blocks, and for each block what its instructions were
/// lowered to.
pub struct FlowView {
    pub types: Types,
    pub config: Config,
    pub return_type: Type,
    pub blocks: Vec<BasicBlock>,
    pub compiled: Seq<Seq<StatementView>>,
}

/// What the reconstruction of a function's control flow reads: the types,
/// the function's return type and blocks, and for each block the
/// statements that its instructions were lowered to.
pub struct ControlFlow<'a> {
    pub types: &'a Types,
    pub config: &'a Config,
    pub return_type: &'a Type,
    pub blocks: &'a Vec<BasicBlock>,
    pub compiled: &'a Vec<Vec<Statement>>,
}

/// The whole of block `i`: the statements of its instructions, and then
/// what its terminator leads to. `depth` bounds how many branches may
/// follow one another, so that a block that reaches itself is an error.
pub open spec fn block_body(cx: FlowView, i: int, depth: nat) -> Result<
    Seq<StatementView>,
    ErrorView,
>
    decreases depth, 3nat, 0nat,
{
    match term_stmts(cx, &cx.blocks@[i].term, depth) {
        Err(e) => Err(e),
        Ok(t) => Ok(cx.compiled[i] + t),
    }
}

/// What the terminator `term` leads to.
///
/// A return sets the result and leaves. A branch is followed by the whole
/// of its target. A conditional branch is a switch over the condition,
/// with the false target as the case of zero and the true target as the
/// default. A switch is a switch over its operand, with one case for each
/// destination and the default target as the default. An unreachable traps.
pub open spec fn term_stmts(cx: FlowView, term: &Terminator, depth: nat) -> Result<
    Seq<StatementView>,
    ErrorView,
>
    decreases depth, 2nat, 0nat,
{
    match term {
        Terminator::Ret(r) => return_stmts(
            &cx.types,
            &cx.config,
            &cx.return_type,
            r,
            cx.types.named_struct_defs@.len() as nat,
        ),
        Terminator::Br(b) => target_body(cx, &b.dest, depth),
        Terminator::CondBr(c) => match scalar_value(&c.condition) {
            Err(e) => Err(e),
            Ok(v) => match target_body(cx, &c.false_dest, depth) {
                Err(e) => Err(e),
                Ok(if_false) => match target_body(cx, &c.true_dest, depth) {
                    Err(e) => Err(e),
                    Ok(if_true) => Ok(
                        seq![
                            StatementView::Switch(
                                SwitchView {
                                    cond: v,
                                    cases: seq![
                                        CaseBlockView {
                                            cond: LiteralView::Number(0),
                                            block: if_false,
                                        },
                                    ],
                                    default: Some(if_true),
                                },
                            ),
                        ],
                    ),
                },
            },
        },
        Terminator::Switch(s) => match scalar_value(&s.operand) {
            Err(e) => Err(e),
            Ok(v) => match switch_cases(cx, s.dests, depth, 0) {
                Err(e) => Err(e),
                Ok(cases) => match target_body(cx, &s.default_dest, depth) {
                    Err(e) => Err(e),
                    Ok(otherwise) => Ok(
                        seq![
                            StatementView::Switch(
                                SwitchView { cond: v, cases, default: Some(otherwise) },
                            ),
                        ],
                    ),
                },
            },
        },
        Terminator::Unreachable => Ok(seq![invalid_call()]),
        Terminator::Other { text } => Err(error_of(ErrorKind::UnsupportedTerminator, text@)),
    }
}

/// The cases of a switch from position `from` on: for each destination its
/// literal and the whole of its target.
pub open spec fn switch_cases(cx: FlowView, dests: Vec<SwitchDest>, depth: nat, from: nat) -> Result<
    Seq<CaseBlockView>,
    ErrorView,
>
    decreases depth, 1nat, dests.len() - from,
{
    if from >= dests.len() {
        Ok(Seq::empty())
    } else {
        match case_literal(&dests[from as int].value) {
            Err(e) => Err(e),
            Ok(l) => match target_body(cx, &dests[from as int].dest, depth) {
                Err(e) => Err(e),
                Ok(b) => match switch_cases(cx, dests, depth, from + 1) {
                    Err(e) => Err(e),
                    Ok(rest) => Ok(seq![CaseBlockView { cond: l, block: b }] + rest),
                },
            },
        }
    }
}

/// The whole of the block named `dest`, one branch further.
pub open spec fn target_body(cx: FlowView, dest: &Name, depth: nat) -> Result<
    Seq<StatementView>,
    ErrorView,
>
    decreases depth, 0nat, 0nat,
{
    match find_block(cx.blocks@, dest@, 0) {
        None => Err(error_of(ErrorKind::MissingBasicBlock, yul_name(dest@))),
        Some(j) => if depth == 0 {
            Err(error_of(ErrorKind::CyclicControlFlow, yul_name(dest@)))
        } else {
            block_body(cx, j, (depth - 1) as nat)
        },
    }
}

/// The body of a function: the whole of its entry block, where at most as
/// many branches follow one another as the function has blocks. Each block
/// must have its lowered statements.
pub open spec fn function_body(cx: FlowView, entry: &Name) -> Result<
    Seq<StatementView>,
    ErrorView,
> {
    if cx.compiled.len() != cx.blocks@.len() {
        Err(error_of(ErrorKind::MissingBasicBlock, Seq::empty()))
    } else {
        match find_block(cx.blocks@, entry@, 0) {
            None => Err(error_of(ErrorKind::MissingBasicBlock, yul_name(entry@))),
            Some(i) => block_body(cx, i, cx.blocks@.len()),
        }
    }
}

/// What a list of cases holds.
pub open spec fn case_views(s: Seq<CaseBlock>) -> Seq<CaseBlockView> {
    Seq::new(s.len(), |i: int| s[i]@)
}

proof fn lemma_find_block_range(blocks: Seq<BasicBlock>, name: NameView, from: int)
    requires
        0 <= from,
    ensures
        find_block(blocks, name, from) matches Some(i) ==> from <= i < blocks.len(),
    decreases blocks.len() - from,
{
    if from < blocks.len() && blocks[from].name@ != name {
        lemma_find_block_range(blocks, name, from + 1);
    }
}

/// The switch over `cond` with the cases `cases` and the default `otherwise`.
fn make_switch(cond: Value, cases: Vec<CaseBlock>, otherwise: Vec<Statement>) -> (r: Vec<Statement>)
    ensures
        stmt_views(r@) == seq![
            StatementView::Switch(
                SwitchView {
                    cond: cond@,
                    cases: case_views(cases@),
                    default: Some(stmt_views(otherwise@)),
                },
            ),
        ],
{
    let block = Block(otherwise);
    proof {
        lemma_block_view(&block);
    }
    let sw = Switch { cond, cases, default: Some(block) };
    assert(sw@.cases =~= case_views(sw.cases@));
    one_stmt(Statement::Switch(sw))
}

/// The case of `cond` with the statements `body`.
fn make_case(cond: Literal, body: Vec<Statement>) -> (r: CaseBlock)
    ensures
        r@ == (CaseBlockView { cond: cond@, block: stmt_views(body@) }),
{
    let block = Block(body);
    proof {
        lemma_block_view(&block);
    }
    CaseBlock { cond, block }
}

/// The statements of a return.
pub fn compile_return_value(types: &Types, config: &Config, return_type: &Type, inst: &Ret) -> (r: Result<
    Vec<Statement>,
    CompileError,
>)
    ensures
        stmts_outcome(
            r,
            return_stmts(types, config, return_type, inst, types.named_struct_defs@.len() as nat),
        ),
{
    match &inst.return_operand {
        None => Ok(one_stmt(Statement::Leave)),
        Some(operand) => {
            let flatter = TypeFlatter::new(types, config);
            let dists = match flatter.flatten_return_type(return_type) {
                Ok(d) => d,
                Err(e) => {
                    return Err(e);
                },
            };
            let sources = match build_operand_values(types, config, operand) {
                Ok(s) => s,
                Err(e) => {
                    return Err(e);
                },
            };
            if sources.len() != dists.len() {
                return Err(CompileError::bare(ErrorKind::WrongArgument));
            }
            let ghost dsts = ident_views(dists@);
            let ghost srcs = value_views(sources@);
            let n = dists.len();
            let mut out: Vec<Statement> = Vec::new();
            let mut i: usize = 0;
            while i < n
                invariant
                    i <= n,
                    n == dists.len(),
                    n == sources.len(),
                    dsts == ident_views(dists@),
                    srcs == value_views(sources@),
                    out.len() == i,
                    forall|j: int| 0 <= j < i ==> out@[j]@ == assignments(dsts, srcs)[j],
                decreases n - i,
            {
                let mut names: Vec<Ident> = Vec::new();
                names.push(dists[i].clone());
                assert(ident_views(names@) =~= seq![dsts[i as int]]);
                out.push(Statement::Assignment(Assignment { names, value: sources[i].clone() }));
                i += 1;
            }
            out.push(Statement::Leave);
            assert(stmt_views(out@) =~= assignments(dsts, srcs).push(StatementView::Leave));
            Ok(out)
        },
    }
}

/// What a list of lists of statements holds.
pub open spec fn block_views(s: Seq<Vec<Statement>>) -> Seq<Seq<StatementView>> {
    Seq::new(s.len(), |i: int| stmt_views(s[i]@))
}

impl<'a> View for ControlFlow<'a> {
    type V = FlowView;

    open spec fn view(&self) -> FlowView {
        FlowView {
            types: *self.types,
            config: *self.config,
            return_type: *self.return_type,
            blocks: *self.blocks,
            compiled: block_views(self.compiled@),
        }
    }
}

impl<'a> ControlFlow<'a> {
    /// Whether each block has its lowered statements.
    pub open spec fn wf(&self) -> bool {
        self.compiled@.len() == self.blocks@.len()
    }

    /// The position of the first block named `name`.
    pub fn find(&self, name: &Name) -> (r: Option<usize>)
        ensures
            match r {
                Some(i) => find_block(self.blocks@, name@, 0) == Some(i as int) && i
                    < self.blocks@.len(),
                None => find_block(self.blocks@, name@, 0) is None,
            },
    {
        let n = self.blocks.len();
        let mut i: usize = 0;
        while i < n
            invariant
                i <= n,
                n == self.blocks.len(),
                find_block(self.blocks@, name@, 0) == find_block(self.blocks@, name@, i as int),
            decreases n - i,
        {
            if self.blocks[i].name.same(name) {
                return Some(i);
            }
            i += 1;
        }
        None
    }

    /// The whole of block `i`.
    fn body(&self, i: usize, depth: usize) -> (r: Result<Vec<Statement>, CompileError>)
        requires
            self.wf(),
            i < self.blocks@.len(),
        ensures
            stmts_outcome(r, block_body(self@, i as int, depth as nat)),
        decreases depth, 3nat, 0nat,
    {
        match self.terminator(&self.blocks[i].term, depth) {
            Err(e) => Err(e),
            Ok(mut t) => {
                let mut out = clone_stmts(&self.compiled[i]);
                let ghost head = stmt_views(out@);
                let ghost tail = stmt_views(t@);
                out.append(&mut t);
                assert(stmt_views(out@) =~= head + tail);
                Ok(out)
            },
        }
    }

    /// What the terminator `term` leads to.
    fn terminator(&self, term: &Terminator, depth: usize) -> (r: Result<
        Vec<Statement>,
        CompileError,
    >)
        requires
            self.wf(),
        ensures
            stmts_outcome(r, term_stmts(self@, term, depth as nat)),
        decreases depth, 2nat, 0nat,
    {
        match term {
            Terminator::Ret(t) => compile_return_value(self.types, self.config, self.return_type, t),
            Terminator::Br(t) => self.target(&t.dest, depth),
            Terminator::CondBr(t) => {
                let cond = match build_scalar_value(&t.condition) {
                    Ok(v) => v,
                    Err(e) => {
                        return Err(e);
                    },
                };
                let if_false = match self.target(&t.false_dest, depth) {
                    Ok(b) => b,
                    Err(e) => {
                        return Err(e);
                    },
                };
                let if_true = match self.target(&t.true_dest, depth) {
                    Ok(b) => b,
                    Err(e) => {
                        return Err(e);
                    },
                };
                let mut cases: Vec<CaseBlock> = Vec::new();
                cases.push(make_case(Literal::Number(NumberLiteral(0)), if_false));
                assert(case_views(cases@) =~= seq![
                    CaseBlockView { cond: LiteralView::Number(0), block: stmt_views(if_false@) },
                ]);
                Ok(make_switch(cond, cases, if_true))
            },
            Terminator::Switch(t) => {
                let cond = match build_scalar_value(&t.operand) {
                    Ok(v) => v,
                    Err(e) => {
                        return Err(e);
                    },
                };
                let cases = match self.cases(&t.dests, depth) {
                    Ok(c) => c,
                    Err(e) => {
                        return Err(e);
                    },
                };
                let otherwise = match self.target(&t.default_dest, depth) {
                    Ok(b) => b,
                    Err(e) => {
                        return Err(e);
                    },
                };
                Ok(make_switch(cond, cases, otherwise))
            },
            Terminator::Unreachable => {
                let call = FunctionCall { name: Ident("invalid".to_owned()), args: Vec::new() };
                proof {
                    lemma_call_args(&call);
                    assert(call@.args =~= Seq::empty());
                }
                Ok(one_stmt(Statement::FunctionCall(call)))
            },
            Terminator::Other { text } => Err(
                CompileError::new(ErrorKind::UnsupportedTerminator, text.as_str()),
            ),
        }
    }

    /// The cases of a switch.
    fn cases(&self, dests: &Vec<SwitchDest>, depth: usize) -> (r: Result<
        Vec<CaseBlock>,
        CompileError,
    >)
        requires
            self.wf(),
        ensures
            match switch_cases(self@, *dests, depth as nat, 0) {
                Ok(c) => r matches Ok(v) && case_views(v@) == c,
                Err(e) => r matches Err(x) && x@ == e,
            },
        decreases depth, 1nat, dests.len(),
    {
        let ghost total = switch_cases(self@, *dests, depth as nat, 0);
        let n = dests.len();
        let mut out: Vec<CaseBlock> = Vec::new();
        let mut i: usize = 0;
        assert(case_views(out@) =~= Seq::empty());
        while i < n
            invariant
                i <= n,
                n == dests.len(),
                self.wf(),
                total == switch_cases(self@, *dests, depth as nat, 0),
                match switch_cases(self@, *dests, depth as nat, i as nat) {
                    Ok(rest) => total == Ok::<Seq<CaseBlockView>, ErrorView>(
                        case_views(out@) + rest,
                    ),
                    Err(e) => total == Err::<Seq<CaseBlockView>, ErrorView>(e),
                },
            decreases n - i,
        {
            let ghost before = case_views(out@);
            let lit = match &dests[i].value {
                Constant::Int { bits: _, value } => Literal::Number(NumberLiteral(*value)),
                _ => {
                    return Err(CompileError::bare(ErrorKind::UnsupportedOperand));
                },
            };
            let body = match self.target(&dests[i].dest, depth) {
                Ok(b) => b,
                Err(e) => {
                    return Err(e);
                },
            };
            let case = make_case(lit, body);
            out.push(case);
            proof {
                let one = seq![case@];
                assert(case_views(out@) =~= before + one);
                match switch_cases(self@, *dests, depth as nat, (i + 1) as nat) {
                    Ok(rest) => {
                        assert(before + (one + rest) =~= (before + one) + rest);
                    },
                    Err(_) => {},
                }
            }
            i += 1;
        }
        proof {
            assert(case_views(out@) + Seq::<CaseBlockView>::empty() =~= case_views(out@));
        }
        Ok(out)
    }

    /// The whole of the block named `dest`, one branch further.
    fn target(&self, dest: &Name, depth: usize) -> (r: Result<Vec<Statement>, CompileError>)
        requires
            self.wf(),
        ensures
            stmts_outcome(r, target_body(self@, dest, depth as nat)),
        decreases depth, 0nat, 0nat,
    {
        match self.find(dest) {
            None => Err(
                CompileError::new(ErrorKind::MissingBasicBlock, yul_ident_name(dest).as_str()),
            ),
            Some(j) => {
                if depth == 0 {
                    return Err(
                        CompileError::new(
                            ErrorKind::CyclicControlFlow,
                            yul_ident_name(dest).as_str(),
                        ),
                    );
                }
                self.body(j, depth - 1)
            },
        }
    }
}

/// The body of the function whose blocks are `blocks` and whose entry block
/// is `entry`, from the statements `compiled` that the blocks' instructions
/// were lowered to.
pub fn build_control_block_from_entry(
    types: &Types,
    config: &Config,
    return_type: &Type,
    blocks: &Vec<BasicBlock>,
    compiled: &Vec<Vec<Statement>>,
    entry: &Name,
) -> (r: Result<Vec<Statement>, CompileError>)
    ensures
        stmts_outcome(
            r,
            function_body(
                FlowView {
                    types: *types,
                    config: *config,
                    return_type: *return_type,
                    blocks: *blocks,
                    compiled: block_views(compiled@),
                },
                entry,
            ),
        ),
{
    if compiled.len() != blocks.len() {
        return Err(CompileError::bare(ErrorKind::MissingBasicBlock));
    }
    let cx = ControlFlow { types, config, return_type, blocks, compiled };
    match cx.find(entry) {
        None => Err(
            CompileError::new(ErrorKind::MissingBasicBlock, yul_ident_name(entry).as_str()),
        ),
        Some(i) => cx.body(i, blocks.len()),
    }
}

} // verus!
