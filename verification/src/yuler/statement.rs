use vstd::prelude::*;
use vstd::string::*;

use crate::yuler::error::YulError;
use crate::yuler::ident::{clone_idents, ident_views, Ident};
use crate::yuler::literal::{Literal, LiteralView};
use crate::yuler::value::{emit_call, emit_names, emit_value, FunctionCall, FunctionCallView, Value, ValueView};
use crate::yuler::variable::{
    emit_assign,
    emit_declare,
    write_names,
    Assignment,
    AssignmentView,
    VariableDeclare,
    VariableDeclareView,
};
use crate::yuler::writer::{Writer, WriterView};

verus! {

/// A statement of the target language.
#[derive(Debug)]
pub enum Statement {
    VariableDeclare(VariableDeclare),
    Assignment(Assignment),
    FunctionCall(FunctionCall),
    If(If),
    Switch(Switch),
    Break,
    Continue,
    Leave,
    ForLoop(ForLoop),
    FunctionDefinition(FunctionDefinition),
}

/// Statements between braces, one on a line, one step deeper than what is around.
#[derive(Debug)]
pub struct Block(pub Vec<Statement>);

/// Statements between braces on one line.
#[derive(Debug)]
pub struct InlineBlock(pub Vec<Statement>);

/// `block` runs where `cond` is not zero.
#[derive(Debug)]
pub struct If {
    pub cond: Value,
    pub block: Block,
}

/// The case whose literal equals `cond` runs, or `default` where none does.
#[derive(Debug)]
pub struct Switch {
    pub cond: Value,
    pub cases: Vec<CaseBlock>,
    pub default: Option<Block>,
}

/// One case of a switch.
#[derive(Debug)]
pub struct CaseBlock {
    pub cond: Literal,
    pub block: Block,
}

/// A loop: `init` once, then `block` and `incr` for as long as `cond` is not zero.
#[derive(Debug)]
pub struct ForLoop {
    pub init: InlineBlock,
    pub cond: Value,
    pub incr: InlineBlock,
    pub block: Block,
}

/// A function with its parameters `args`, its results `rets` and its body.
#[derive(Debug)]
pub struct FunctionDefinition {
    pub name: Ident,
    pub args: Vec<Ident>,
    pub rets: Vec<Ident>,
    pub block: Block,
}

/// What a statement holds.
pub enum StatementView {
    VariableDeclare(VariableDeclareView),
    Assignment(AssignmentView),
    FunctionCall(FunctionCallView),
    If(IfView),
    Switch(SwitchView),
    Break,
    Continue,
    Leave,
    ForLoop(ForLoopView),
    FunctionDefinition(FunctionDefinitionView),
}

/// What a conditional holds.
pub struct IfView {
    pub cond: ValueView,
    pub block: Seq<StatementView>,
}

/// What a switch holds.
pub struct SwitchView {
    pub cond: ValueView,
    pub cases: Seq<CaseBlockView>,
    pub default: Option<Seq<StatementView>>,
}

/// What a case holds.
pub struct CaseBlockView {
    pub cond: LiteralView,
    pub block: Seq<StatementView>,
}

/// What a loop holds.
pub struct ForLoopView {
    pub init: Seq<StatementView>,
    pub cond: ValueView,
    pub incr: Seq<StatementView>,
    pub block: Seq<StatementView>,
}

/// What a function definition holds.
pub struct FunctionDefinitionView {
    pub name: Seq<char>,
    pub args: Seq<Seq<char>>,
    pub rets: Seq<Seq<char>>,
    pub block: Seq<StatementView>,
}

impl Statement {
    /// What the statement holds.
    pub open spec fn model(&self) -> StatementView
        decreases self,
    {
        match self {
            Statement::VariableDeclare(v) => StatementView::VariableDeclare(v@),
            Statement::Assignment(v) => StatementView::Assignment(v@),
            Statement::FunctionCall(v) => StatementView::FunctionCall(v@),
            Statement::If(v) => StatementView::If(v.model()),
            Statement::Switch(v) => StatementView::Switch(v.model()),
            Statement::Break => StatementView::Break,
            Statement::Continue => StatementView::Continue,
            Statement::Leave => StatementView::Leave,
            Statement::ForLoop(v) => StatementView::ForLoop(v.model()),
            Statement::FunctionDefinition(v) => StatementView::FunctionDefinition(v.model()),
        }
    }
}

impl Block {
    /// What the block's statements hold.
    pub open spec fn model(&self) -> Seq<StatementView>
        decreases self,
    {
        Seq::new(
            self.0.len() as nat,
            |i: int|
                if 0 <= i < self.0.len() {
                    self.0[i].model()
                } else {
                    StatementView::Leave
                },
        )
    }
}

impl InlineBlock {
    /// What the block's statements hold.
    pub open spec fn model(&self) -> Seq<StatementView>
        decreases self,
    {
        Seq::new(
            self.0.len() as nat,
            |i: int|
                if 0 <= i < self.0.len() {
                    self.0[i].model()
                } else {
                    StatementView::Leave
                },
        )
    }
}

impl If {
    /// What the conditional holds.
    pub open spec fn model(&self) -> IfView
        decreases self,
    {
        IfView { cond: self.cond@, block: self.block.model() }
    }
}

impl CaseBlock {
    /// What the case holds.
    pub open spec fn model(&self) -> CaseBlockView
        decreases self,
    {
        CaseBlockView { cond: self.cond@, block: self.block.model() }
    }
}

impl Switch {
    /// What the switch holds.
    pub open spec fn model(&self) -> SwitchView
        decreases self,
    {
        SwitchView {
            cond: self.cond@,
            cases: Seq::new(
                self.cases.len() as nat,
                |i: int|
                    if 0 <= i < self.cases.len() {
                        self.cases[i].model()
                    } else {
                        CaseBlockView { cond: LiteralView::Number(0), block: Seq::empty() }
                    },
            ),
            default: match &self.default {
                Some(b) => Some(b.model()),
                None => None,
            },
        }
    }
}

impl ForLoop {
    /// What the loop holds.
    pub open spec fn model(&self) -> ForLoopView
        decreases self,
    {
        ForLoopView {
            init: self.init.model(),
            cond: self.cond@,
            incr: self.incr.model(),
            block: self.block.model(),
        }
    }
}

impl FunctionDefinition {
    /// What the definition holds.
    pub open spec fn model(&self) -> FunctionDefinitionView
        decreases self,
    {
        FunctionDefinitionView {
            name: self.name@,
            args: ident_views(self.args@),
            rets: ident_views(self.rets@),
            block: self.block.model(),
        }
    }
}

impl View for Statement {
    type V = StatementView;

    open spec fn view(&self) -> StatementView {
        self.model()
    }
}

impl View for Block {
    type V = Seq<StatementView>;

    open spec fn view(&self) -> Seq<StatementView> {
        self.model()
    }
}

impl View for InlineBlock {
    type V = Seq<StatementView>;

    open spec fn view(&self) -> Seq<StatementView> {
        self.model()
    }
}

impl View for If {
    type V = IfView;

    open spec fn view(&self) -> IfView {
        self.model()
    }
}

impl View for CaseBlock {
    type V = CaseBlockView;

    open spec fn view(&self) -> CaseBlockView {
        self.model()
    }
}

impl View for Switch {
    type V = SwitchView;

    open spec fn view(&self) -> SwitchView {
        self.model()
    }
}

impl View for ForLoop {
    type V = ForLoopView;

    open spec fn view(&self) -> ForLoopView {
        self.model()
    }
}

impl View for FunctionDefinition {
    type V = FunctionDefinitionView;

    open spec fn view(&self) -> FunctionDefinitionView {
        self.model()
    }
}

/// What a list of statements holds.
pub open spec fn stmt_views(s: Seq<Statement>) -> Seq<StatementView> {
    Seq::new(s.len(), |i: int| s[i]@)
}

/// A block holds what its statements hold.
pub proof fn lemma_block_view(b: &Block)
    ensures
        b@ == stmt_views(b.0@),
{
    assert(b@ =~= stmt_views(b.0@));
}

/// The writer after the statement `s`, or `None` where its blocks are nested
/// deeper than the writer can count.
#[verifier::opaque]
pub open spec fn emit_stmt(w: WriterView, s: StatementView) -> Option<WriterView>
    decreases s,
{
    match s {
        StatementView::VariableDeclare(d) => Some(emit_declare(w, d)),
        StatementView::Assignment(a) => Some(emit_assign(w, a)),
        StatementView::FunctionCall(c) => Some(emit_call(w, c)),
        StatementView::If(i) => emit_if(w, i),
        StatementView::Switch(s) => emit_switch(w, s),
        StatementView::Break => Some(w.put_str("break"@)),
        StatementView::Continue => Some(w.put_str("continue"@)),
        StatementView::Leave => Some(w.put_str("leave"@)),
        StatementView::ForLoop(f) => emit_for(w, f),
        StatementView::FunctionDefinition(d) => emit_function(w, d),
    }
}

/// The writer after the block `b`: `{`, each statement on a line of its own
/// one step deeper, and `}`.
pub open spec fn emit_block(w: WriterView, b: Seq<StatementView>) -> Option<WriterView>
    decreases b, b.len() + 1,
{
    match w.put_str("{"@).enter() {
        None => None,
        Some(w1) => match emit_lines(w1.put_end(), b, 0) {
            None => None,
            Some(w2) => Some(w2.leave().put_str("}"@)),
        },
    }
}

/// The writer after the statements from position `i` on, each followed by a
/// line break.
#[verifier::opaque]
pub open spec fn emit_lines(w: WriterView, b: Seq<StatementView>, i: nat) -> Option<WriterView>
    decreases b, b.len() - i,
{
    if i >= b.len() {
        Some(w)
    } else {
        match emit_stmt(w, b[i as int]) {
            None => None,
            Some(w1) => emit_lines(w1.put_end(), b, i + 1),
        }
    }
}

/// The writer after the one-line block `b`: `{ `, the statements, ` }`.
pub open spec fn emit_inline(w: WriterView, b: Seq<StatementView>) -> Option<WriterView>
    decreases b, b.len() + 1,
{
    match emit_run(w.put_str("{ "@), b, 0) {
        None => None,
        Some(w1) => Some(w1.put_str(" }"@)),
    }
}

/// The writer after the statements from position `i` on, one behind the other.
#[verifier::opaque]
pub open spec fn emit_run(w: WriterView, b: Seq<StatementView>, i: nat) -> Option<WriterView>
    decreases b, b.len() - i,
{
    if i >= b.len() {
        Some(w)
    } else {
        match emit_stmt(w, b[i as int]) {
            None => None,
            Some(w1) => emit_run(w1, b, i + 1),
        }
    }
}

/// The writer after the conditional `i`: `if `, the condition, a space, the block.
pub open spec fn emit_if(w: WriterView, i: IfView) -> Option<WriterView>
    decreases i,
{
    emit_block(emit_value(w.put_str("if "@), i.cond).put_str(" "@), i.block)
}

/// The writer after the case `c`: `case `, the literal, a space, the block.
pub open spec fn emit_case(w: WriterView, c: CaseBlockView) -> Option<WriterView>
    decreases c,
{
    emit_block(w.put_str("case "@).put_raw(c.cond.bytes()).put_str(" "@), c.block)
}

/// The writer after the cases from position `i` on.
#[verifier::opaque]
pub open spec fn emit_cases(w: WriterView, cases: Seq<CaseBlockView>, i: nat) -> Option<
    WriterView,
>
    decreases cases, cases.len() - i,
{
    if i >= cases.len() {
        Some(w)
    } else {
        match emit_case(w, cases[i as int]) {
            None => None,
            Some(w1) => emit_cases(w1, cases, i + 1),
        }
    }
}

/// The writer after the switch `s`: `switch `, the condition and a line
/// break, the cases, and the default block behind `default `.
pub open spec fn emit_switch(w: WriterView, s: SwitchView) -> Option<WriterView>
    decreases s,
{
    match emit_cases(emit_value(w.put_str("switch "@), s.cond).put_end(), s.cases, 0) {
        None => None,
        Some(w1) => match s.default {
            None => Some(w1),
            Some(b) => emit_block(w1.put_str("default "@), b),
        },
    }
}

/// The writer after the loop `f`: `for `, then the initial block, the
/// condition, the step and the body, with a space between two of them.
pub open spec fn emit_for(w: WriterView, f: ForLoopView) -> Option<WriterView>
    decreases f,
{
    match emit_inline(w.put_str("for "@), f.init) {
        None => None,
        Some(w1) => match emit_inline(emit_value(w1.put_str(" "@), f.cond).put_str(" "@), f.incr) {
            None => None,
            Some(w2) => emit_block(w2.put_str(" "@), f.block),
        },
    }
}

/// The writer after the head of the definition `d`, up to its body.
pub open spec fn emit_function_head(w: WriterView, d: FunctionDefinitionView) -> WriterView {
    let w1 = emit_names(w.put_str("function "@).put_str(d.name).put_str("("@), d.args, 0).put_str(
        ") "@,
    );
    if d.rets.len() > 0 {
        emit_names(w1.put_str("->"@), d.rets, 0).put_str(" "@)
    } else {
        w1
    }
}

/// The writer after the definition `d`: `function `, the name, the
/// parameters between brackets, `->` and the results where there are any,
/// the body, and a line break.
pub open spec fn emit_function(w: WriterView, d: FunctionDefinitionView) -> Option<WriterView>
    decreases d,
{
    match emit_block(emit_function_head(w, d), d.block) {
        None => None,
        Some(w1) => Some(w1.put_end()),
    }
}

/// What `emit_stmt` is, case by case.
pub proof fn lemma_emit_stmt(w: WriterView, s: StatementView)
    ensures
        emit_stmt(w, s) == (match s {
            StatementView::VariableDeclare(d) => Some(emit_declare(w, d)),
            StatementView::Assignment(a) => Some(emit_assign(w, a)),
            StatementView::FunctionCall(c) => Some(emit_call(w, c)),
            StatementView::If(i) => emit_if(w, i),
            StatementView::Switch(s) => emit_switch(w, s),
            StatementView::Break => Some(w.put_str("break"@)),
            StatementView::Continue => Some(w.put_str("continue"@)),
            StatementView::Leave => Some(w.put_str("leave"@)),
            StatementView::ForLoop(f) => emit_for(w, f),
            StatementView::FunctionDefinition(d) => emit_function(w, d),
        }),
{
    reveal(emit_stmt);
}

/// What `emit_lines` is: nothing more at the end of the list, else one
/// statement, a line break, and the rest.
pub proof fn lemma_emit_lines(w: WriterView, b: Seq<StatementView>, i: nat)
    ensures
        emit_lines(w, b, i) == (if i >= b.len() {
            Some(w)
        } else {
            match emit_stmt(w, b[i as int]) {
                None => None,
                Some(w1) => emit_lines(w1.put_end(), b, i + 1),
            }
        }),
{
    reveal(emit_lines);
    reveal(emit_stmt);
}

/// What `emit_run` is: nothing more at the end of the list, else one
/// statement and the rest.
pub proof fn lemma_emit_run(w: WriterView, b: Seq<StatementView>, i: nat)
    ensures
        emit_run(w, b, i) == (if i >= b.len() {
            Some(w)
        } else {
            match emit_stmt(w, b[i as int]) {
                None => None,
                Some(w1) => emit_run(w1, b, i + 1),
            }
        }),
{
    reveal(emit_run);
    reveal(emit_stmt);
}

/// What `emit_cases` is: nothing more at the end of the list, else one case
/// and the rest.
pub proof fn lemma_emit_cases(w: WriterView, cases: Seq<CaseBlockView>, i: nat)
    ensures
        emit_cases(w, cases, i) == (if i >= cases.len() {
            Some(w)
        } else {
            match emit_case(w, cases[i as int]) {
                None => None,
                Some(w1) => emit_cases(w1, cases, i + 1),
            }
        }),
{
    reveal(emit_cases);
}

/// What `emit_block` is, in terms of `emit_lines`.
pub proof fn lemma_emit_block(w: WriterView, b: Seq<StatementView>)
    ensures
        emit_block(w, b) == (match w.put_str("{"@).enter() {
            None => None,
            Some(w1) => match emit_lines(w1.put_end(), b, 0) {
                None => None,
                Some(w2) => Some(w2.leave().put_str("}"@)),
            },
        }),
{
    reveal(emit_lines);
}

/// What `emit_inline` is, in terms of `emit_run`.
pub proof fn lemma_emit_inline(w: WriterView, b: Seq<StatementView>)
    ensures
        emit_inline(w, b) == (match emit_run(w.put_str("{ "@), b, 0) {
            None => None,
            Some(w1) => Some(w1.put_str(" }"@)),
        }),
{
    reveal(emit_run);
}

/// What `emit_switch` is, in terms of `emit_cases`.
pub proof fn lemma_emit_switch(w: WriterView, s: SwitchView)
    ensures
        emit_switch(w, s) == (match emit_cases(
            emit_value(w.put_str("switch "@), s.cond).put_end(),
            s.cases,
            0,
        ) {
            None => None,
            Some(w1) => match s.default {
                None => Some(w1),
                Some(b) => emit_block(w1.put_str("default "@), b),
            },
        }),
{
    reveal(emit_cases);
}

/// Whether a write that started at `before` ended as `want` says: with the
/// writer at `want` and at the depth it started from, or with the one error
/// that rendering knows where `want` is `None`.
pub open spec fn wrote(
    r: Result<(), YulError>,
    before: WriterView,
    now: WriterView,
    want: Option<WriterView>,
) -> bool {
    match want {
        Some(v) => r is Ok && now == v && now.step == before.step,
        None => r == Err::<(), YulError>(YulError::NestingTooDeep),
    }
}

impl Statement {
    /// Writes the statement.
    pub fn write(&self, w: &mut Writer) -> (r: Result<(), YulError>)
        ensures
            wrote(r, old(w)@, final(w)@, emit_stmt(old(w)@, self@)),
        decreases self,
    {
        proof {
            lemma_emit_stmt(w@, self@);
        }
        match self {
            Statement::VariableDeclare(v) => v.write(w),
            Statement::Assignment(v) => v.write(w),
            Statement::FunctionCall(v) => v.write(w),
            Statement::If(v) => v.write(w),
            Statement::Switch(v) => v.write(w),
            Statement::Break => w.write_str("break"),
            Statement::Continue => w.write_str("continue"),
            Statement::Leave => w.write_str("leave"),
            Statement::ForLoop(v) => v.write(w),
            Statement::FunctionDefinition(v) => v.write(w),
        }
    }
}

impl Block {
    /// Writes the block.
    pub fn write(&self, w: &mut Writer) -> (r: Result<(), YulError>)
        ensures
            wrote(r, old(w)@, final(w)@, emit_block(old(w)@, self@)),
        decreases self,
    {
        let ghost stmts = self@;
        let ghost w0 = w@;
        let _ = w.write_str("{");
        if let Err(e) = w.enter_block() {
            proof {
                lemma_emit_block(w0, stmts);
            }
            return Err(e);
        }
        let _ = w.write_end();
        let ghost start = w@;
        proof {
            lemma_emit_block(w0, stmts);
        }
        let n = self.0.len();
        let mut i: usize = 0;
        while i < n
            invariant
                i <= n,
                n == self.0.len(),
                stmts == self@,
                w@.step == start.step,
                emit_lines(start, stmts, 0) == emit_lines(w@, stmts, i as nat),
                emit_lines(start, stmts, 0) is None ==> emit_block(old(w)@, self@) is None,
            decreases n - i,
        {
            let ghost wi = w@;
            proof {
                lemma_emit_lines(wi, stmts, i as nat);
                assert(stmts[i as int] == self.0@[i as int]@);
            }
            if let Err(e) = self.0[i].write(w) {
                return Err(e);
            }
            let _ = w.write_end();
            i += 1;
        }
        proof {
            lemma_emit_lines(w@, stmts, n as nat);
        }
        w.leave_block();
        w.write_str("}")
    }
}

impl InlineBlock {
    /// Writes the block on one line.
    pub fn write(&self, w: &mut Writer) -> (r: Result<(), YulError>)
        ensures
            wrote(r, old(w)@, final(w)@, emit_inline(old(w)@, self@)),
        decreases self,
    {
        let ghost stmts = self@;
        let ghost w0 = w@;
        let _ = w.write_str("{ ");
        let ghost start = w@;
        proof {
            lemma_emit_inline(w0, stmts);
        }
        let n = self.0.len();
        let mut i: usize = 0;
        while i < n
            invariant
                i <= n,
                n == self.0.len(),
                stmts == self@,
                w@.step == start.step,
                emit_run(start, stmts, 0) == emit_run(w@, stmts, i as nat),
                emit_run(start, stmts, 0) is None ==> emit_inline(old(w)@, self@) is None,
            decreases n - i,
        {
            let ghost wi = w@;
            proof {
                lemma_emit_run(wi, stmts, i as nat);
                assert(stmts[i as int] == self.0@[i as int]@);
            }
            if let Err(e) = self.0[i].write(w) {
                return Err(e);
            }
            i += 1;
        }
        proof {
            lemma_emit_run(w@, stmts, n as nat);
        }
        w.write_str(" }")
    }
}

impl If {
    /// Writes the conditional.
    pub fn write(&self, w: &mut Writer) -> (r: Result<(), YulError>)
        ensures
            wrote(r, old(w)@, final(w)@, emit_if(old(w)@, self@)),
        decreases self,
    {
        let _ = w.write_str("if ");
        let _ = self.cond.write(w);
        let _ = w.write_str(" ");
        self.block.write(w)
    }
}

impl CaseBlock {
    /// Writes the case.
    pub fn write(&self, w: &mut Writer) -> (r: Result<(), YulError>)
        ensures
            wrote(r, old(w)@, final(w)@, emit_case(old(w)@, self@)),
        decreases self,
    {
        let _ = w.write_str("case ");
        let _ = self.cond.write(&mut w.w);
        let _ = w.write_str(" ");
        self.block.write(w)
    }
}

impl Switch {
    /// Writes the switch.
    pub fn write(&self, w: &mut Writer) -> (r: Result<(), YulError>)
        ensures
            wrote(r, old(w)@, final(w)@, emit_switch(old(w)@, self@)),
        decreases self,
    {
        let ghost me = self@;
        let ghost cases = me.cases;
        let ghost w0 = w@;
        let _ = w.write_str("switch ");
        let _ = self.cond.write(w);
        let _ = w.write_end();
        let ghost start = w@;
        proof {
            lemma_emit_switch(w0, me);
        }
        let n = self.cases.len();
        let mut i: usize = 0;
        while i < n
            invariant
                i <= n,
                n == self.cases.len(),
                cases == self@.cases,
                w@.step == start.step,
                emit_cases(start, cases, 0) == emit_cases(w@, cases, i as nat),
                emit_cases(start, cases, 0) is None ==> emit_switch(old(w)@, self@) is None,
            decreases n - i,
        {
            let ghost wi = w@;
            proof {
                lemma_emit_cases(wi, cases, i as nat);
                assert(cases[i as int] == self.cases@[i as int]@);
            }
            if let Err(e) = self.cases[i].write(w) {
                return Err(e);
            }
            i += 1;
        }
        proof {
            lemma_emit_cases(w@, cases, n as nat);
        }
        match &self.default {
            Some(v) => {
                assert(me.default == Some(v@));
                let _ = w.write_str("default ");
                v.write(w)
            },
            None => {
                assert(me.default is None);
                Ok(())
            },
        }
    }
}

impl ForLoop {
    /// Writes the loop.
    pub fn write(&self, w: &mut Writer) -> (r: Result<(), YulError>)
        ensures
            wrote(r, old(w)@, final(w)@, emit_for(old(w)@, self@)),
        decreases self,
    {
        let _ = w.write_str("for ");
        if let Err(e) = self.init.write(w) {
            return Err(e);
        }
        let _ = w.write_str(" ");
        let _ = self.cond.write(w);
        let _ = w.write_str(" ");
        if let Err(e) = self.incr.write(w) {
            return Err(e);
        }
        let _ = w.write_str(" ");
        self.block.write(w)
    }
}

impl FunctionDefinition {
    /// A function named `name` without parameters, results or statements.
    pub fn new(name: Ident) -> (r: FunctionDefinition)
        ensures
            r@ == (FunctionDefinitionView {
                name: name@,
                args: Seq::empty(),
                rets: Seq::empty(),
                block: Seq::empty(),
            }),
    {
        let r = FunctionDefinition {
            name,
            args: Vec::new(),
            rets: Vec::new(),
            block: Block(Vec::new()),
        };
        assert(r@.args =~= Seq::empty());
        assert(r@.rets =~= Seq::empty());
        assert(r@.block =~= Seq::empty());
        r
    }

    /// Writes the definition.
    pub fn write(&self, w: &mut Writer) -> (r: Result<(), YulError>)
        ensures
            wrote(r, old(w)@, final(w)@, emit_function(old(w)@, self@)),
        decreases self,
    {
        let _ = w.write_str("function ");
        let _ = self.name.write(w);
        let _ = w.write_str("(");
        write_names(&self.args, w);
        let _ = w.write_str(") ");
        if !self.rets.is_empty() {
            let _ = w.write_str("->");
            write_names(&self.rets, w);
            let _ = w.write_str(" ");
        }
        if let Err(e) = self.block.write(w) {
            return Err(e);
        }
        w.write_end()
    }
}

/// Copies a list of statements.
pub fn clone_stmts(v: &Vec<Statement>) -> (r: Vec<Statement>)
    ensures
        stmt_views(r@) == stmt_views(v@),
    decreases v,
{
    let mut out: Vec<Statement> = Vec::new();
    let mut i: usize = 0;
    while i < v.len()
        invariant
            i <= v.len(),
            out.len() == i,
            forall|j: int| 0 <= j < i ==> out@[j]@ == v@[j]@,
        decreases v.len() - i,
    {
        out.push(v[i].clone());
        i += 1;
    }
    assert(stmt_views(out@) =~= stmt_views(v@));
    out
}

impl Clone for Statement {
    fn clone(&self) -> (r: Self)
        ensures
            r@ == self@,
        decreases self,
    {
        match self {
            Statement::VariableDeclare(v) => Statement::VariableDeclare(v.clone()),
            Statement::Assignment(v) => Statement::Assignment(v.clone()),
            Statement::FunctionCall(v) => Statement::FunctionCall(v.clone()),
            Statement::If(v) => Statement::If(v.clone()),
            Statement::Switch(v) => Statement::Switch(v.clone()),
            Statement::Break => Statement::Break,
            Statement::Continue => Statement::Continue,
            Statement::Leave => Statement::Leave,
            Statement::ForLoop(v) => Statement::ForLoop(v.clone()),
            Statement::FunctionDefinition(v) => Statement::FunctionDefinition(v.clone()),
        }
    }
}

impl Clone for Block {
    fn clone(&self) -> (r: Self)
        ensures
            r@ == self@,
        decreases self,
    {
        let r = Block(clone_stmts(&self.0));
        assert(r@ =~= stmt_views(r.0@));
        assert(self@ =~= stmt_views(self.0@));
        r
    }
}

impl Clone for InlineBlock {
    fn clone(&self) -> (r: Self)
        ensures
            r@ == self@,
        decreases self,
    {
        let r = InlineBlock(clone_stmts(&self.0));
        assert(r@ =~= stmt_views(r.0@));
        assert(self@ =~= stmt_views(self.0@));
        r
    }
}

impl Clone for If {
    fn clone(&self) -> (r: Self)
        ensures
            r@ == self@,
        decreases self,
    {
        If { cond: self.cond.clone(), block: self.block.clone() }
    }
}

impl Clone for CaseBlock {
    fn clone(&self) -> (r: Self)
        ensures
            r@ == self@,
        decreases self,
    {
        CaseBlock { cond: self.cond.clone(), block: self.block.clone() }
    }
}

impl Clone for Switch {
    fn clone(&self) -> (r: Self)
        ensures
            r@ == self@,
        decreases self,
    {
        let mut cases: Vec<CaseBlock> = Vec::new();
        let mut i: usize = 0;
        while i < self.cases.len()
            invariant
                i <= self.cases.len(),
                cases.len() == i,
                forall|j: int| 0 <= j < i ==> cases@[j]@ == self.cases@[j]@,
            decreases self.cases.len() - i,
        {
            cases.push(self.cases[i].clone());
            i += 1;
        }
        let default = match &self.default {
            Some(b) => Some(b.clone()),
            None => None,
        };
        let r = Switch { cond: self.cond.clone(), cases, default };
        assert(r@.cases =~= self@.cases);
        r
    }
}

impl Clone for ForLoop {
    fn clone(&self) -> (r: Self)
        ensures
            r@ == self@,
        decreases self,
    {
        ForLoop {
            init: self.init.clone(),
            cond: self.cond.clone(),
            incr: self.incr.clone(),
            block: self.block.clone(),
        }
    }
}

impl Clone for FunctionDefinition {
    fn clone(&self) -> (r: Self)
        ensures
            r@ == self@,
        decreases self,
    {
        FunctionDefinition {
            name: self.name.clone(),
            args: clone_idents(&self.args),
            rets: clone_idents(&self.rets),
            block: self.block.clone(),
        }
    }
}

impl From<Vec<Statement>> for Block {
    fn from(value: Vec<Statement>) -> (r: Self) {
        Block(value)
    }
}

impl vstd::std_specs::convert::FromSpecImpl<Vec<Statement>> for Block {
    open spec fn obeys_from_spec() -> bool {
        true
    }

    open spec fn from_spec(v: Vec<Statement>) -> Self {
        Block(v)
    }
}

impl From<VariableDeclare> for Statement {
    fn from(value: VariableDeclare) -> (r: Self) {
        Statement::VariableDeclare(value)
    }
}

impl vstd::std_specs::convert::FromSpecImpl<VariableDeclare> for Statement {
    open spec fn obeys_from_spec() -> bool {
        true
    }

    open spec fn from_spec(v: VariableDeclare) -> Self {
        Statement::VariableDeclare(v)
    }
}

impl From<Assignment> for Statement {
    fn from(value: Assignment) -> (r: Self) {
        Statement::Assignment(value)
    }
}

impl vstd::std_specs::convert::FromSpecImpl<Assignment> for Statement {
    open spec fn obeys_from_spec() -> bool {
        true
    }

    open spec fn from_spec(v: Assignment) -> Self {
        Statement::Assignment(v)
    }
}

impl From<FunctionCall> for Statement {
    fn from(value: FunctionCall) -> (r: Self) {
        Statement::FunctionCall(value)
    }
}

impl vstd::std_specs::convert::FromSpecImpl<FunctionCall> for Statement {
    open spec fn obeys_from_spec() -> bool {
        true
    }

    open spec fn from_spec(v: FunctionCall) -> Self {
        Statement::FunctionCall(v)
    }
}

impl From<If> for Statement {
    fn from(value: If) -> (r: Self) {
        Statement::If(value)
    }
}

impl vstd::std_specs::convert::FromSpecImpl<If> for Statement {
    open spec fn obeys_from_spec() -> bool {
        true
    }

    open spec fn from_spec(v: If) -> Self {
        Statement::If(v)
    }
}

impl From<FunctionDefinition> for Statement {
    fn from(value: FunctionDefinition) -> (r: Self) {
        Statement::FunctionDefinition(value)
    }
}

impl vstd::std_specs::convert::FromSpecImpl<FunctionDefinition> for Statement {
    open spec fn obeys_from_spec() -> bool {
        true
    }

    open spec fn from_spec(v: FunctionDefinition) -> Self {
        Statement::FunctionDefinition(v)
    }
}

} // verus!
