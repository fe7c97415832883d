//! The function compiler: the head of a function from its signature, its
//! body from its blocks.
use vstd::prelude::*;
use vstd::string::*;

use crate::block::{
    after,
    embeds,
    lemma_objects_of_insts,
    lowered_insts,
    string_views,
    BlockCompiler,
};
use crate::config::Config;
use crate::error::{CompileError, ErrorView};
use crate::ir::{BasicBlock, Function, Name, Parameter, Types};
use crate::types::{return_base, slots, slots_outcome, then, TypeFlatter};
use crate::utils::control_block::{
    block_views,
    build_control_block_from_entry,
    function_body,
    FlowView,
};
use crate::utils::name::{tidy, tidy_name, yul_name};
use crate::yuler::ident::{ident_views, Ident};
use crate::yuler::statement::{
    lemma_block_view,
    stmt_views,
    Block,
    FunctionDefinition,
    FunctionDefinitionView,
    Statement,
    StatementView,
};

verus! {

/// The slots of the parameters from position `from` on, in order.
pub open spec fn params_slots(
    types: &Types,
    config: &Config,
    params: Vec<Parameter>,
    fuel: nat,
    from: nat,
) -> Result<Seq<Seq<char>>, ErrorView>
    decreases params.len() - from,
{
    if from >= params.len() {
        Ok(Seq::empty())
    } else {
        match slots(
            types,
            config,
            tidy(yul_name(params[from as int].name@)),
            &params[from as int].ty,
            false,
            fuel,
        ) {
            Err(e) => Err(e),
            Ok(head) => then(head, params_slots(types, config, params, fuel, from + 1)),
        }
    }
}

/// The result slots and the parameter slots of the function `f`.
pub open spec fn header_slots(types: &Types, config: &Config, f: &Function, fuel: nat) -> Result<
    (Seq<Seq<char>>, Seq<Seq<char>>),
    ErrorView,
> {
    match slots(types, config, return_base(), &f.return_type, true, fuel) {
        Err(e) => Err(e),
        Ok(rets) => match params_slots(types, config, f.parameters, fuel, 0) {
            Err(e) => Err(e),
            Ok(args) => Ok((rets, args)),
        },
    }
}

/// For each block from position `from` on what its instructions lower to,
/// and `objects` with the objects that they embed.
pub open spec fn lowered_blocks(
    types: &Types,
    config: &Config,
    blocks: Vec<BasicBlock>,
    fuel: nat,
    from: nat,
    objects: Seq<Seq<char>>,
) -> Result<(Seq<Seq<StatementView>>, Seq<Seq<char>>), ErrorView>
    decreases blocks.len() - from,
{
    if from >= blocks.len() {
        Ok((Seq::empty(), objects))
    } else {
        match lowered_insts(types, config, blocks[from as int].instrs, fuel, 0, objects) {
            Err(e) => Err(e),
            Ok((stmts, found)) => match lowered_blocks(
                types,
                config,
                blocks,
                fuel,
                from + 1,
                found,
            ) {
                Err(e) => Err(e),
                Ok((rest, all)) => Ok((seq![stmts] + rest, all)),
            },
        }
    }
}

/// Whether an instruction of one of the blocks from position `from` on
/// embeds the object `o`.
pub open spec fn blocks_embed(
    types: &Types,
    config: &Config,
    blocks: Vec<BasicBlock>,
    fuel: nat,
    from: nat,
    o: Seq<char>,
) -> bool {
    exists|b: int, i: int|
        from <= b < blocks.len() && 0 <= i < blocks[b].instrs.len() && #[trigger] embeds(
            types,
            config,
            &blocks[b].instrs[i],
            fuel,
            o,
        )
}

/// The objects of the blocks are merged: what `lowered_blocks` gives as
/// objects holds what was held before and what the instructions of the
/// blocks from position `from` on embed, nothing else, and nothing twice
/// where nothing was held twice.
pub proof fn lemma_objects_of_blocks(
    types: &Types,
    config: &Config,
    blocks: Vec<BasicBlock>,
    fuel: nat,
    from: nat,
    objects: Seq<Seq<char>>,
)
    requires
        lowered_blocks(types, config, blocks, fuel, from, objects) is Ok,
    ensures
        ({
            let all = lowered_blocks(types, config, blocks, fuel, from, objects)->Ok_0.1;
            &&& forall|x: Seq<char>|
                all.contains(x) <==> (objects.contains(x) || blocks_embed(
                    types,
                    config,
                    blocks,
                    fuel,
                    from,
                    x,
                ))
            &&& objects.no_duplicates() ==> all.no_duplicates()
        }),
    decreases blocks.len() - from,
{
    let all = lowered_blocks(types, config, blocks, fuel, from, objects)->Ok_0.1;
    if from < blocks.len() {
        let instrs = blocks[from as int].instrs;
        let mid = lowered_insts(types, config, instrs, fuel, 0, objects)->Ok_0.1;
        lemma_objects_of_insts(types, config, instrs, fuel, 0, objects);
        lemma_objects_of_blocks(types, config, blocks, fuel, from + 1, mid);
        assert forall|x: Seq<char>|
            all.contains(x) <==> (objects.contains(x) || blocks_embed(
                types,
                config,
                blocks,
                fuel,
                from,
                x,
            )) by {
            if all.contains(x) && !objects.contains(x) {
                if mid.contains(x) {
                    let i = choose|i: int|
                        0 <= i < instrs.len() && #[trigger] embeds(
                            types,
                            config,
                            &instrs[i],
                            fuel,
                            x,
                        );
                    assert(embeds(types, config, &blocks[from as int].instrs[i], fuel, x));
                } else {
                    let (b, i) = choose|b: int, i: int|
                        from + 1 <= b < blocks.len() && 0 <= i < blocks[b].instrs.len()
                            && #[trigger] embeds(types, config, &blocks[b].instrs[i], fuel, x);
                    assert(embeds(types, config, &blocks[b].instrs[i], fuel, x));
                }
            }
            if blocks_embed(types, config, blocks, fuel, from, x) {
                let (b, i) = choose|b: int, i: int|
                    from <= b < blocks.len() && 0 <= i < blocks[b].instrs.len()
                        && #[trigger] embeds(types, config, &blocks[b].instrs[i], fuel, x);
                if b == from {
                    assert(embeds(types, config, &instrs[i], fuel, x));
                    assert(mid.contains(x));
                } else {
                    assert(from + 1 <= b < blocks.len() && embeds(
                        types,
                        config,
                        &blocks[b].instrs[i],
                        fuel,
                        x,
                    ));
                    assert(blocks_embed(types, config, blocks, fuel, from + 1, x));
                }
            }
        }
    }
}

/// A function's objects are those that its instructions embed: where the
/// body of `f` lowers, its objects hold an object exactly when an
/// instruction of one of its blocks embeds it, and hold none twice.
pub proof fn lemma_objects_of_function(
    types: &Types,
    config: &Config,
    f: &Function,
    entry: &Name,
    fuel: nat,
)
    requires
        lowered_body(types, config, f, entry, fuel) is Ok,
    ensures
        ({
            let objects = lowered_body(types, config, f, entry, fuel)->Ok_0.1;
            &&& objects.no_duplicates()
            &&& forall|x: Seq<char>|
                objects.contains(x) <==> blocks_embed(types, config, f.basic_blocks, fuel, 0, x)
        }),
{
    lemma_objects_of_blocks(types, config, f.basic_blocks, fuel, 0, Seq::empty());
}

/// The body of the function `f` whose entry block is `entry`, and the
/// objects that it embeds: each block's instructions are lowered, and the
/// blocks are put together from the entry block on.
pub open spec fn lowered_body(
    types: &Types,
    config: &Config,
    f: &Function,
    entry: &Name,
    fuel: nat,
) -> Result<(Seq<StatementView>, Seq<Seq<char>>), ErrorView> {
    match lowered_blocks(types, config, f.basic_blocks, fuel, 0, Seq::empty()) {
        Err(e) => Err(e),
        Ok((compiled, objects)) => match function_body(
            FlowView {
                types: *types,
                config: *config,
                return_type: f.return_type,
                blocks: f.basic_blocks,
                compiled,
            },
            entry,
        ) {
            Err(e) => Err(e),
            Ok(body) => Ok((body, objects)),
        },
    }
}

/// The definition that the function `f` lowers to, and the objects that it
/// embeds. The definition is named by the tidied name of `f`.
pub open spec fn lowered_function(
    types: &Types,
    config: &Config,
    f: &Function,
    entry: &Name,
    fuel: nat,
) -> Result<(FunctionDefinitionView, Seq<Seq<char>>), ErrorView> {
    match header_slots(types, config, f, fuel) {
        Err(e) => Err(e),
        Ok((rets, args)) => match lowered_body(types, config, f, entry, fuel) {
            Err(e) => Err(e),
            Ok((body, objects)) => Ok(
                (FunctionDefinitionView { name: tidy(f.name@), args, rets, block: body }, objects),
            ),
        },
    }
}

/// Lowers one function.
pub struct FunctionCompiler<'a> {
    pub llvm_func: &'a Function,
    pub llvm_types: &'a Types,
    pub config: &'a Config,
    /// The definition as far as it is built.
    pub func: FunctionDefinition,
}

impl<'a> FunctionCompiler<'a> {
    /// A compiler for `llvm_func`, whose definition has its name and
    /// nothing else yet. Every function is accepted.
    pub fn new(llvm_func: &'a Function, llvm_types: &'a Types, config: &'a Config) -> (r: Result<
        Self,
        CompileError,
    >)
        ensures
            r matches Ok(c) && c.llvm_func == llvm_func && c.llvm_types == llvm_types && c.config
                == config && c.func@ == (FunctionDefinitionView {
                name: tidy(llvm_func.name@),
                args: Seq::empty(),
                rets: Seq::empty(),
                block: Seq::empty(),
            }),
    {
        let func = FunctionDefinition::new(Ident(tidy_name(llvm_func.name.as_str())));
        Ok(FunctionCompiler { llvm_func, func, config, llvm_types })
    }

    /// How many named types may be resolved inside one another.
    pub open spec fn fuel(&self) -> nat {
        self.llvm_types.named_struct_defs@.len()
    }

    /// Adds the result slots and the parameter slots to the definition. On
    /// an error the definition stays as it was.
    pub fn compile_function_header(&mut self) -> (r: Result<(), CompileError>)
        ensures
            final(self).llvm_func == old(self).llvm_func,
            final(self).llvm_types == old(self).llvm_types,
            final(self).config == old(self).config,
            match header_slots(
                old(self).llvm_types,
                old(self).config,
                old(self).llvm_func,
                old(self).fuel(),
            ) {
                Ok((rets, args)) => r is Ok && final(self).func@ == (FunctionDefinitionView {
                    rets: old(self).func@.rets + rets,
                    args: old(self).func@.args + args,
                    ..old(self).func@
                }),
                Err(e) => r matches Err(x) && x@ == e && final(self).func@ == old(self).func@,
            },
    {
        let flatter = TypeFlatter::new(self.llvm_types, self.config);
        let mut rets = match flatter.flatten_return_type(&self.llvm_func.return_type) {
            Ok(r) => r,
            Err(e) => {
                return Err(e);
            },
        };
        let ghost total = params_slots(
            self.llvm_types,
            self.config,
            self.llvm_func.parameters,
            self.fuel(),
            0,
        );
        let params = &self.llvm_func.parameters;
        let n = params.len();
        let mut args: Vec<Ident> = Vec::new();
        let mut i: usize = 0;
        assert(ident_views(args@) =~= Seq::empty());
        while i < n
            invariant
                i <= n,
                n == params.len(),
                params == &self.llvm_func.parameters,
                flatter.types == self.llvm_types,
                flatter.config == self.config,
                self.llvm_func == old(self).llvm_func,
                self.llvm_types == old(self).llvm_types,
                self.config == old(self).config,
                self.func == old(self).func,
                ident_views(rets@) == slots(
                    self.llvm_types,
                    self.config,
                    return_base(),
                    &self.llvm_func.return_type,
                    true,
                    self.fuel(),
                )->Ok_0,
                slots(
                    self.llvm_types,
                    self.config,
                    return_base(),
                    &self.llvm_func.return_type,
                    true,
                    self.fuel(),
                ) is Ok,
                total == params_slots(
                    self.llvm_types,
                    self.config,
                    self.llvm_func.parameters,
                    self.fuel(),
                    0,
                ),
                total == then(
                    ident_views(args@),
                    params_slots(
                        self.llvm_types,
                        self.config,
                        self.llvm_func.parameters,
                        self.fuel(),
                        i as nat,
                    ),
                ),
            decreases n - i,
        {
            let ghost before = ident_views(args@);
            match flatter.flatten_parameter(&params[i].name, &params[i].ty) {
                Err(e) => {
                    return Err(e);
                },
                Ok(mut sub) => {
                    let ghost head = ident_views(sub@);
                    args.append(&mut sub);
                    proof {
                        assert(ident_views(args@) =~= before + head);
                        match params_slots(
                            self.llvm_types,
                            self.config,
                            self.llvm_func.parameters,
                            self.fuel(),
                            (i + 1) as nat,
                        ) {
                            Ok(t) => {
                                assert(before + (head + t) =~= (before + head) + t);
                            },
                            Err(_) => {},
                        }
                    }
                },
            }
            i += 1;
        }
        proof {
            assert(ident_views(args@) + Seq::<Seq<char>>::empty() =~= ident_views(args@));
        }
        let ghost old_rets = ident_views(self.func.rets@);
        let ghost old_args = ident_views(self.func.args@);
        let ghost new_rets = ident_views(rets@);
        let ghost new_args = ident_views(args@);
        self.func.rets.append(&mut rets);
        self.func.args.append(&mut args);
        proof {
            assert(ident_views(self.func.rets@) =~= old_rets + new_rets);
            assert(ident_views(self.func.args@) =~= old_args + new_args);
        }
        Ok(())
    }

    /// Lowers the blocks and puts them together from the block `entry` on.
    /// Gives the definition with the body behind what it held, and the
    /// objects that the function embeds.
    pub fn compile_function_body(self, entry: &Name) -> (r: Result<
        (FunctionDefinition, Vec<String>),
        CompileError,
    >)
        ensures
            match lowered_body(self.llvm_types, self.config, self.llvm_func, entry, self.fuel()) {
                Ok((body, objects)) => r matches Ok(p) && p.0@ == (FunctionDefinitionView {
                    block: self.func@.block + body,
                    ..self.func@
                }) && string_views(p.1@) == objects,
                Err(e) => r matches Err(x) && x@ == e,
            },
    {
        let ghost types = self.llvm_types;
        let ghost config = self.config;
        let ghost all_blocks = self.llvm_func.basic_blocks;
        let ghost fuel = self.fuel();
        let ghost total = lowered_blocks(types, config, all_blocks, fuel, 0, Seq::empty());
        let mut objects: Vec<String> = Vec::new();
        let mut blocks: Vec<Vec<Statement>> = Vec::new();
        let n = self.llvm_func.basic_blocks.len();
        let mut i: usize = 0;
        assert(string_views(objects@) =~= Seq::empty());
        assert(block_views(blocks@) =~= Seq::empty());
        while i < n
            invariant
                i <= n,
                n == self.llvm_func.basic_blocks.len(),
                blocks.len() == i,
                types == self.llvm_types,
                config == self.config,
                all_blocks == self.llvm_func.basic_blocks,
                fuel == self.fuel(),
                total == lowered_blocks(types, config, all_blocks, fuel, 0, Seq::empty()),
                match lowered_blocks(
                    types,
                    config,
                    all_blocks,
                    fuel,
                    i as nat,
                    string_views(objects@),
                ) {
                    Ok((rest, all)) => total == Ok::<
                        (Seq<Seq<StatementView>>, Seq<Seq<char>>),
                        ErrorView,
                    >((block_views(blocks@) + rest, all)),
                    Err(e) => total == Err::<(Seq<Seq<StatementView>>, Seq<Seq<char>>), ErrorView>(
                        e,
                    ),
                },
            decreases n - i,
        {
            let ghost before = block_views(blocks@);
            let bb = &self.llvm_func.basic_blocks[i];
            let mut block_compiler = BlockCompiler::new(bb, self.llvm_types, self.config);
            block_compiler.objects = objects;
            let block = match block_compiler.compile() {
                Ok(b) => b,
                Err(e) => {
                    return Err(e);
                },
            };
            objects = block_compiler.objects;
            let ghost one = seq![stmt_views(block@)];
            blocks.push(block);
            proof {
                assert(block_views(blocks@) =~= before + one);
                match lowered_blocks(
                    types,
                    config,
                    all_blocks,
                    fuel,
                    (i + 1) as nat,
                    string_views(objects@),
                ) {
                    Ok((rest, all)) => {
                        assert(before + (one + rest) =~= (before + one) + rest);
                    },
                    Err(_) => {},
                }
            }
            i += 1;
        }
        proof {
            assert(block_views(blocks@) + Seq::<Seq<StatementView>>::empty() =~= block_views(
                blocks@,
            ));
        }
        let mut body = match build_control_block_from_entry(
            self.llvm_types,
            self.config,
            &self.llvm_func.return_type,
            &self.llvm_func.basic_blocks,
            &blocks,
            entry,
        ) {
            Ok(b) => b,
            Err(e) => {
                return Err(e);
            },
        };
        let mut func = self.func;
        let ghost held = func@.block;
        let ghost added = stmt_views(body@);
        proof {
            lemma_block_view(&func.block);
        }
        func.block.0.append(&mut body);
        proof {
            lemma_block_view(&func.block);
            assert(func@.block =~= held + added);
        }
        Ok((func, objects))
    }
}

/// Lowers the function `f` whose entry block is `entry`.
pub fn compile_function(f: &Function, types: &Types, config: &Config, entry: &Name) -> (r: Result<
    (FunctionDefinition, Vec<String>),
    CompileError,
>)
    ensures
        match lowered_function(types, config, f, entry, types.named_struct_defs@.len() as nat) {
            Ok((def, objects)) => r matches Ok(p) && p.0@ == def && string_views(p.1@) == objects,
            Err(e) => r matches Err(x) && x@ == e,
        },
{
    let mut func_compiler = match FunctionCompiler::new(f, types, config) {
        Ok(c) => c,
        Err(e) => {
            return Err(e);
        },
    };
    match func_compiler.compile_function_header() {
        Ok(()) => {},
        Err(e) => {
            return Err(e);
        },
    }
    let ghost head = func_compiler.func@;
    match func_compiler.compile_function_body(entry) {
        Ok(p) => {
            proof {
                assert(Seq::<Seq<char>>::empty() + head.rets =~= head.rets);
                assert(Seq::<Seq<char>>::empty() + head.args =~= head.args);
                assert(Seq::<StatementView>::empty() + p.0@.block =~= p.0@.block);
            }
            Ok(p)
        },
        Err(e) => Err(e),
    }
}

} // verus!
