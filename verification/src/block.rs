//! The block compiler: from the instructions of a basic block to
//! statements.
use vstd::prelude::*;
use vstd::string::*;

use crate::config::Config;
use crate::error::{error_of, CompileError, ErrorKind, ErrorView};
use crate::insts::alloca::{lowered_alloca, one_stmt, stmts_outcome, AllocaCompiler};
use crate::insts::call::{lowered_call, CallCompiler};
use crate::insts::extractvalue::{lowered_extract_value, ExtractValueCompiler};
use crate::insts::insertvalue::no_stmts;
use crate::insts::ptr_int::{lowered_ptr_int, PtrIntCompiler};
use crate::insts::select::{lowered_select, SelectCompiler};
use crate::ir::{BasicBlock, Instruction, Types};
use crate::text::str_eq;
use crate::yuler::statement::{stmt_views, Statement, StatementView};

verus! {

/// The texts of a list of strings.
pub open spec fn string_views(s: Seq<String>) -> Seq<Seq<char>> {
    Seq::new(s.len(), |i: int| s[i]@)
}

/// `objects` with `o` behind, unless `objects` holds `o` already.
pub open spec fn with_object(objects: Seq<Seq<char>>, o: Seq<char>) -> Seq<Seq<char>> {
    if objects.contains(o) {
        objects
    } else {
        objects.push(o)
    }
}

/// `objects` with `o` behind, where there is an `o` that `objects` does not hold.
pub open spec fn with_found(objects: Seq<Seq<char>>, o: Option<Seq<char>>) -> Seq<Seq<char>> {
    match o {
        Some(name) => with_object(objects, name),
        None => objects,
    }
}

/// The statements that the instruction `inst` lowers to, and the object
/// that it embeds. Phis and writes of an aggregate's part lower to nothing;
/// an instruction outside the supported subset is an error.
#[verifier::opaque]
pub open spec fn lowered_inst(types: &Types, config: &Config, inst: &Instruction, fuel: nat) -> Result<
    (Seq<StatementView>, Option<Seq<char>>),
    ErrorView,
> {
    match inst {
        Instruction::ExtractValue(i) => match lowered_extract_value(i) {
            Ok(s) => Ok((s, None)),
            Err(e) => Err(e),
        },
        Instruction::InsertValue(i) => Ok((Seq::empty(), None)),
        Instruction::Alloca(i) => match lowered_alloca(types, config, i, fuel) {
            Ok(s) => Ok((s, None)),
            Err(e) => Err(e),
        },
        Instruction::Phi(i) => Ok((Seq::empty(), None)),
        Instruction::Call(i) => match lowered_call(types, config, i, fuel) {
            Ok((s, o)) => Ok((seq![s], o)),
            Err(e) => Err(e),
        },
        Instruction::Select(i) => match lowered_select(i) {
            Ok(s) => Ok((s, None)),
            Err(e) => Err(e),
        },
        Instruction::IntToPtr(i) => match lowered_ptr_int(&i.operand, &i.dest) {
            Ok(s) => Ok((s, None)),
            Err(e) => Err(e),
        },
        Instruction::PtrToInt(i) => match lowered_ptr_int(&i.operand, &i.dest) {
            Ok(s) => Ok((s, None)),
            Err(e) => Err(e),
        },
        Instruction::Other { text } => Err(error_of(ErrorKind::UnsupportedInstruction, text@)),
    }
}

/// The statements that the instructions from position `from` on lower to,
/// in order, and `objects` with the objects that they embed.
pub open spec fn lowered_insts(
    types: &Types,
    config: &Config,
    instrs: Vec<Instruction>,
    fuel: nat,
    from: nat,
    objects: Seq<Seq<char>>,
) -> Result<(Seq<StatementView>, Seq<Seq<char>>), ErrorView>
    decreases instrs.len() - from,
{
    if from >= instrs.len() {
        Ok((Seq::empty(), objects))
    } else {
        match lowered_inst(types, config, &instrs[from as int], fuel) {
            Err(e) => Err(e),
            Ok((head, o)) => match lowered_insts(
                types,
                config,
                instrs,
                fuel,
                from + 1,
                with_found(objects, o),
            ) {
                Err(e) => Err(e),
                Ok((rest, all)) => Ok((head + rest, all)),
            },
        }
    }
}

/// Whether the instruction `inst` embeds the object `o`.
pub open spec fn embeds(
    types: &Types,
    config: &Config,
    inst: &Instruction,
    fuel: nat,
    o: Seq<char>,
) -> bool {
    lowered_inst(types, config, inst, fuel) matches Ok(p) && p.1 == Some(o)
}

/// `with_object` holds what was held and the new object, and holds nothing
/// twice where nothing was held twice.
pub proof fn lemma_with_object(objects: Seq<Seq<char>>, o: Seq<char>)
    ensures
        forall|x: Seq<char>|
            with_object(objects, o).contains(x) <==> (objects.contains(x) || x == o),
        objects.no_duplicates() ==> with_object(objects, o).no_duplicates(),
{
    let all = with_object(objects, o);
    if !objects.contains(o) {
        assert(all[objects.len() as int] == o);
        assert forall|x: Seq<char>| all.contains(x) <==> (objects.contains(x) || x == o) by {
            if objects.contains(x) {
                let k = choose|k: int| 0 <= k < objects.len() && objects[k] == x;
                assert(all[k] == x);
            }
            if all.contains(x) && x != o {
                let k = choose|k: int| 0 <= k < all.len() && all[k] == x;
                assert(objects[k] == x);
            }
        }
        if objects.no_duplicates() {
            assert forall|i: int, j: int| 0 <= i < all.len() && 0 <= j < all.len() && i != j implies all[i]
                != all[j] by {
                if i < objects.len() && j < objects.len() {
                    assert(objects[i] != objects[j]);
                } else if i < objects.len() {
                    assert(objects.contains(all[i]));
                } else {
                    assert(objects.contains(all[j]));
                }
            }
        }
    }
}

/// The objects of a block are merged: what `lowered_insts` gives as
/// objects holds what was held before and what the instructions from
/// position `from` on embed, nothing else, and nothing twice where nothing
/// was held twice.
pub proof fn lemma_objects_of_insts(
    types: &Types,
    config: &Config,
    instrs: Vec<Instruction>,
    fuel: nat,
    from: nat,
    objects: Seq<Seq<char>>,
)
    requires
        lowered_insts(types, config, instrs, fuel, from, objects) is Ok,
    ensures
        ({
            let all = lowered_insts(types, config, instrs, fuel, from, objects)->Ok_0.1;
            &&& forall|x: Seq<char>|
                all.contains(x) <==> (objects.contains(x) || exists|i: int|
                    from <= i < instrs.len() && #[trigger] embeds(
                        types,
                        config,
                        &instrs[i],
                        fuel,
                        x,
                    ))
            &&& objects.no_duplicates() ==> all.no_duplicates()
        }),
    decreases instrs.len() - from,
{
    let all = lowered_insts(types, config, instrs, fuel, from, objects)->Ok_0.1;
    if from < instrs.len() {
        let o = lowered_inst(types, config, &instrs[from as int], fuel)->Ok_0.1;
        let mid = with_found(objects, o);
        lemma_objects_of_insts(types, config, instrs, fuel, from + 1, mid);
        if o is Some {
            lemma_with_object(objects, o->0);
        }
        assert forall|x: Seq<char>|
            all.contains(x) <==> (objects.contains(x) || exists|i: int|
                from <= i < instrs.len() && #[trigger] embeds(
                    types,
                    config,
                    &instrs[i],
                    fuel,
                    x,
                )) by {
            if all.contains(x) && !objects.contains(x) {
                if mid.contains(x) {
                    assert(embeds(types, config, &instrs[from as int], fuel, x));
                } else {
                    let i = choose|i: int|
                        from + 1 <= i < instrs.len() && #[trigger] embeds(
                            types,
                            config,
                            &instrs[i],
                            fuel,
                            x,
                        );
                    assert(from <= i < instrs.len() && embeds(types, config, &instrs[i], fuel, x));
                }
            }
            if exists|i: int|
                from <= i < instrs.len() && #[trigger] embeds(types, config, &instrs[i], fuel, x) {
                let i = choose|i: int|
                    from <= i < instrs.len() && #[trigger] embeds(
                        types,
                        config,
                        &instrs[i],
                        fuel,
                        x,
                    );
                if i == from {
                    assert(mid.contains(x));
                } else {
                    assert(from + 1 <= i < instrs.len() && embeds(
                        types,
                        config,
                        &instrs[i],
                        fuel,
                        x,
                    ));
                }
            }
        }
    }
}

/// `stmts` in front of the statements that `rest` gives, with the objects
/// of `rest`; or the error of `rest`.
pub open spec fn after(
    stmts: Seq<StatementView>,
    rest: Result<(Seq<StatementView>, Seq<Seq<char>>), ErrorView>,
) -> Result<(Seq<StatementView>, Seq<Seq<char>>), ErrorView> {
    match rest {
        Ok((r, all)) => Ok((stmts + r, all)),
        Err(e) => Err(e),
    }
}

/// Adds `o` to `objects`, unless it is there already.
pub fn add_object(objects: &mut Vec<String>, o: String)
    ensures
        string_views(final(objects)@) == with_object(string_views(old(objects)@), o@),
{
    let ghost before = string_views(objects@);
    let n = objects.len();
    let mut i: usize = 0;
    while i < n
        invariant
            i <= n,
            n == objects.len(),
            objects == old(objects),
            before == string_views(objects@),
            forall|j: int| 0 <= j < i ==> objects@[j]@ != o@,
        decreases n - i,
    {
        if str_eq(objects[i].as_str(), o.as_str()) {
            proof {
                assert(before[i as int] == o@);
                assert(before.contains(o@));
            }
            return ;
        }
        i += 1;
    }
    proof {
        assert(!before.contains(o@)) by {
            if before.contains(o@) {
                let j = choose|j: int| 0 <= j < before.len() && before[j] == o@;
                assert(objects@[j]@ == o@);
            }
        }
    }
    objects.push(o);
    assert(string_views(objects@) =~= before.push(o@));
}

/// Lowers the instructions of one basic block.
pub struct BlockCompiler<'a> {
    pub bb: &'a BasicBlock,
    pub llvm_types: &'a Types,
    pub config: &'a Config,
    /// The objects that the compiled instructions embed, each once.
    pub objects: Vec<String>,
}

impl<'a> BlockCompiler<'a> {
    /// A compiler for `bb`, which has embedded no object yet.
    pub fn new(bb: &'a BasicBlock, llvm_types: &'a Types, config: &'a Config) -> (r: Self)
        ensures
            r.bb == bb,
            r.llvm_types == llvm_types,
            r.config == config,
            r.objects@.len() == 0,
    {
        BlockCompiler { bb, llvm_types, config, objects: Vec::new() }
    }

    /// How many named types may be resolved inside one another.
    pub open spec fn fuel(&self) -> nat {
        self.llvm_types.named_struct_defs@.len()
    }

    /// Lowers the block's instructions, in order, and adds the objects that
    /// they embed to `objects`. On an error `objects` stays as it was.
    pub fn compile(&mut self) -> (r: Result<Vec<Statement>, CompileError>)
        ensures
            final(self).bb == old(self).bb,
            final(self).llvm_types == old(self).llvm_types,
            final(self).config == old(self).config,
            match lowered_insts(
                old(self).llvm_types,
                old(self).config,
                old(self).bb.instrs,
                old(self).fuel(),
                0,
                string_views(old(self).objects@),
            ) {
                Ok((stmts, objects)) => r matches Ok(v) && stmt_views(v@) == stmts && string_views(
                    final(self).objects@,
                ) == objects,
                Err(e) => r matches Err(x) && x@ == e && final(self).objects == old(self).objects,
            },
    {
        let ghost total = lowered_insts(
            self.llvm_types,
            self.config,
            self.bb.instrs,
            self.fuel(),
            0,
            string_views(self.objects@),
        );
        let ghost types = self.llvm_types;
        let ghost config = self.config;
        let ghost instrs = self.bb.instrs;
        let ghost fuel = self.fuel();
        let mut stmts: Vec<Statement> = Vec::new();
        let mut found: Vec<String> = crate::block::clone_strings(&self.objects);
        let n = self.bb.instrs.len();
        let mut i: usize = 0;
        assert(stmt_views(stmts@) =~= Seq::empty());
        while i < n
            invariant
                i <= n,
                n == self.bb.instrs.len(),
                self.bb == old(self).bb,
                self.llvm_types == old(self).llvm_types,
                self.config == old(self).config,
                self.objects == old(self).objects,
                types == self.llvm_types,
                config == self.config,
                instrs == self.bb.instrs,
                fuel == self.fuel(),
                total == lowered_insts(
                    old(self).llvm_types,
                    old(self).config,
                    old(self).bb.instrs,
                    old(self).fuel(),
                    0,
                    string_views(old(self).objects@),
                ),
                total == after(
                    stmt_views(stmts@),
                    lowered_insts(types, config, instrs, fuel, i as nat, string_views(found@)),
                ),
            decreases n - i,
        {
            let ghost before = stmt_views(stmts@);
            let ghost objects_before = string_views(found@);
            match lower_inst(self.llvm_types, self.config, &self.bb.instrs[i]) {
                Err(e) => {
                    return Err(e);
                },
                Ok((mut sub, o)) => {
                    let ghost head = stmt_views(sub@);
                    stmts.append(&mut sub);
                    match o {
                        Some(name) => {
                            add_object(&mut found, name);
                        },
                        None => {},
                    }
                    proof {
                        assert(stmt_views(stmts@) =~= before + head);
                        match lowered_insts(
                            types,
                            config,
                            instrs,
                            fuel,
                            (i + 1) as nat,
                            string_views(found@),
                        ) {
                            Ok((rest, all)) => {
                                assert(before + (head + rest) =~= (before + head) + rest);
                            },
                            Err(_) => {},
                        }
                    }
                },
            }
            i += 1;
        }
        proof {
            assert(stmt_views(stmts@) + Seq::<StatementView>::empty() =~= stmt_views(stmts@));
        }
        self.objects = found;
        Ok(stmts)
    }

    /// Lowers the one instruction `inst`, and adds the object that it
    /// embeds to `objects`. On an error `objects` stays as it was.
    pub fn compile_inst(&mut self, inst: &Instruction) -> (r: Result<Vec<Statement>, CompileError>)
        ensures
            final(self).bb == old(self).bb,
            final(self).llvm_types == old(self).llvm_types,
            final(self).config == old(self).config,
            match lowered_inst(old(self).llvm_types, old(self).config, inst, old(self).fuel()) {
                Ok((stmts, o)) => r matches Ok(v) && stmt_views(v@) == stmts && string_views(
                    final(self).objects@,
                ) == with_found(string_views(old(self).objects@), o),
                Err(e) => r matches Err(x) && x@ == e && final(self).objects == old(self).objects,
            },
    {
        match lower_inst(self.llvm_types, self.config, inst) {
            Err(e) => Err(e),
            Ok((stmts, o)) => {
                match o {
                    Some(name) => {
                        add_object(&mut self.objects, name);
                    },
                    None => {},
                }
                Ok(stmts)
            },
        }
    }
}

/// Copies a list of strings.
pub fn clone_strings(v: &Vec<String>) -> (r: Vec<String>)
    ensures
        string_views(r@) == string_views(v@),
{
    let mut out: Vec<String> = Vec::new();
    let mut i: usize = 0;
    while i < v.len()
        invariant
            i <= v.len(),
            out.len() == i,
            forall|j: int| 0 <= j < i ==> out@[j]@ == v@[j]@,
        decreases v.len() - i,
    {
        out.push(v[i].clone());
        i += 1;
    }
    assert(string_views(out@) =~= string_views(v@));
    out
}

/// Lowers the one instruction `inst`.
pub fn lower_inst(types: &Types, config: &Config, inst: &Instruction) -> (r: Result<
    (Vec<Statement>, Option<String>),
    CompileError,
>)
    ensures
        match lowered_inst(types, config, inst, types.named_struct_defs@.len() as nat) {
            Ok((stmts, o)) => r matches Ok(p) && stmt_views(p.0@) == stmts && (match o {
                Some(name) => p.1 matches Some(t) && t@ == name,
                None => p.1 is None,
            }),
            Err(e) => r matches Err(x) && x@ == e,
        },
{
    proof {
        reveal(lowered_inst);
    }
    match inst {
        Instruction::ExtractValue(i) => {
            let compiler = ExtractValueCompiler::new(i);
            match compiler.compile() {
                Ok(s) => Ok((s, None)),
                Err(e) => Err(e),
            }
        },
        Instruction::InsertValue(_) => match no_stmts() {
            Ok(s) => Ok((s, None)),
            Err(e) => Err(e),
        },
        Instruction::Alloca(i) => {
            let compiler = AllocaCompiler::new(i, types, config);
            match compiler.compile() {
                Ok(s) => Ok((s, None)),
                Err(e) => Err(e),
            }
        },
        Instruction::Phi(_) => match no_stmts() {
            Ok(s) => Ok((s, None)),
            Err(e) => Err(e),
        },
        Instruction::Call(i) => {
            let mut compiler = CallCompiler::new(i, types, config);
            match compiler.compile_call() {
                Ok(stmt) => Ok((one_stmt(stmt), compiler.object)),
                Err(e) => Err(e),
            }
        },
        Instruction::Select(i) => {
            let select = SelectCompiler::new(i);
            match select.compile() {
                Ok(s) => Ok((s, None)),
                Err(e) => Err(e),
            }
        },
        Instruction::IntToPtr(i) => {
            let compiler = PtrIntCompiler::new(&i.operand, &i.dest);
            match compiler.compile() {
                Ok(s) => Ok((s, None)),
                Err(e) => Err(e),
            }
        },
        Instruction::PtrToInt(i) => {
            let compiler = PtrIntCompiler::new(&i.operand, &i.dest);
            match compiler.compile() {
                Ok(s) => Ok((s, None)),
                Err(e) => Err(e),
            }
        },
        Instruction::Other { text } => Err(
            CompileError::new(ErrorKind::UnsupportedInstruction, text.as_str()),
        ),
    }
}

} // verus!
