//! The object compiler: from a module and an entry symbol to the object
//! that holds every function reached from the entry.
use vstd::prelude::*;
use vstd::string::*;

use crate::block::{clone_strings, string_views};
use crate::config::Config;
use crate::error::{error_of, CompileError, ErrorKind, ErrorView};
use crate::function::{compile_function, lowered_function};
use crate::insts::alloca::one_stmt;
use crate::ir::{EntryBlock, Function, Module, ModuleAnalysis, Name};
use crate::text::{holds, str_eq};
use crate::utils::call_graph::{get_all_callees, reachable};
use crate::utils::name::{tidy, tidy_name};
use crate::yuler::ident::Ident;
use crate::yuler::object::{object_views, Object, ObjectView};
use crate::yuler::statement::{
    lemma_block_view,
    stmt_views,
    Block,
    FunctionDefinition,
    FunctionDefinitionView,
    Statement,
    StatementView,
};
use crate::yuler::value::{lemma_call_args, FunctionCall, FunctionCallView};

verus! {

/// A compiled function, kept under the name of its source.
#[derive(Debug)]
pub struct CachedFunction {
    pub name: String,
    pub def: FunctionDefinition,
    pub objects: Vec<String>,
}

/// A compiled object, kept under the name of its entry.
#[derive(Debug)]
pub struct CachedObject {
    pub name: String,
    pub object: Object,
}

/// Compiles objects, and keeps what it has compiled.
#[derive(Debug)]
pub struct Compiler {
    pub func_caches: Vec<CachedFunction>,
    pub objects_caches: Vec<CachedObject>,
    pub config: Config,
}

/// The entry block that counts for the function `f`, looking from position
/// `from` on.
pub open spec fn entry_of(entries: Seq<EntryBlock>, f: Seq<char>, from: int) -> Option<Name>
    decreases entries.len() - from,
{
    if from < 0 || from >= entries.len() {
        None
    } else if entries[from].function@ == f {
        Some(entries[from].block)
    } else {
        entry_of(entries, f, from + 1)
    }
}

/// Whether no two functions of the module have the same name.
pub open spec fn distinct_names(module: &Module) -> bool {
    forall|i: int, j: int|
        0 <= i < j < module.functions@.len() ==> #[trigger] module.functions@[i].name@
            != #[trigger] module.functions@[j].name@
}

/// The definition that the function `f` of the module lowers to, from the
/// entry block that the analysis gives for it, and the objects that it
/// embeds.
pub open spec fn function_of(
    module: &Module,
    analysis: &ModuleAnalysis,
    config: &Config,
    f: &Function,
) -> Result<(FunctionDefinitionView, Seq<Seq<char>>), ErrorView> {
    match entry_of(analysis.entries@, f.name@, 0) {
        None => Err(error_of(ErrorKind::MissingBasicBlock, f.name@)),
        Some(e) => lowered_function(
            &module.types,
            config,
            f,
            &e,
            module.types.named_struct_defs@.len() as nat,
        ),
    }
}

/// Whether the object of `entry` holds the function named `name`: the
/// entry itself, and what is reached from it.
pub open spec fn needed(analysis: &ModuleAnalysis, entry: Seq<char>, name: Seq<char>) -> bool {
    name == entry || reachable(&analysis.call_graph, entry, name)
}

/// The call of the entry function that ends an object's code.
pub open spec fn entry_call(entry: Seq<char>) -> StatementView {
    StatementView::FunctionCall(FunctionCallView { name: tidy(entry), args: Seq::empty() })
}

/// The object of `entry`: named `entry`, its code holds the definition of
/// each function of the module that the object needs, in the module's
/// order, and then a call of the entry; its objects are the objects that
/// those functions embed, each compiled in the same way. `depth` bounds
/// how deep objects may be nested in it, so that an object nested in itself
/// is an error.
pub open spec fn object_of(
    module: &Module,
    analysis: &ModuleAnalysis,
    config: &Config,
    entry: Seq<char>,
    depth: nat,
) -> Result<ObjectView, ErrorView>
    decreases depth, 2nat, 0nat,
{
    match object_parts(module, analysis, config, entry, depth, 0) {
        Err(e) => Err(e),
        Ok((code, objects)) => Ok(ObjectView { name: entry, code, data: Seq::empty(), objects }),
    }
}

/// The code and the nested objects that the functions from position `from`
/// on give to the object of `entry`.
pub open spec fn object_parts(
    module: &Module,
    analysis: &ModuleAnalysis,
    config: &Config,
    entry: Seq<char>,
    depth: nat,
    from: nat,
) -> Result<(Seq<StatementView>, Seq<ObjectView>), ErrorView>
    decreases depth, 1nat, module.functions@.len() - from,
{
    if from >= module.functions@.len() {
        Ok((seq![entry_call(entry)], Seq::empty()))
    } else if !needed(analysis, entry, module.functions@[from as int].name@) {
        object_parts(module, analysis, config, entry, depth, from + 1)
    } else {
        match function_of(module, analysis, config, &module.functions@[from as int]) {
            Err(e) => Err(e),
            Ok((def, names)) => match nested_objects(module, analysis, config, names, depth, 0) {
                Err(e) => Err(e),
                Ok(subs) => match object_parts(module, analysis, config, entry, depth, from + 1) {
                    Err(e) => Err(e),
                    Ok((code, objects)) => Ok(
                        (seq![StatementView::FunctionDefinition(def)] + code, subs + objects),
                    ),
                },
            },
        }
    }
}

/// The objects of the entries `names` from position `from` on.
pub open spec fn nested_objects(
    module: &Module,
    analysis: &ModuleAnalysis,
    config: &Config,
    names: Seq<Seq<char>>,
    depth: nat,
    from: nat,
) -> Result<Seq<ObjectView>, ErrorView>
    decreases depth, 0nat, names.len() - from,
{
    if from >= names.len() {
        Ok(Seq::empty())
    } else if depth == 0 {
        Err(error_of(ErrorKind::CyclicObject, names[from as int]))
    } else {
        match object_of(module, analysis, config, names[from as int], (depth - 1) as nat) {
            Err(e) => Err(e),
            Ok(o) => match nested_objects(module, analysis, config, names, depth, from + 1) {
                Err(e) => Err(e),
                Ok(rest) => Ok(seq![o] + rest),
            },
        }
    }
}

/// The object that `entry` compiles to: an error where two functions of
/// the module have one name, else the object of `entry`, with objects
/// nested in it at most as deep as the module has functions.
pub open spec fn compiled_object(
    module: &Module,
    analysis: &ModuleAnalysis,
    config: &Config,
    entry: Seq<char>,
) -> Result<ObjectView, ErrorView> {
    if !distinct_names(module) {
        Err(error_of(ErrorKind::DuplicateFunction, Seq::empty()))
    } else {
        object_of(module, analysis, config, entry, module.functions@.len())
    }
}

/// Whether the outcome `r` is the object or the error that `s` gives.
pub open spec fn object_outcome(r: Result<Object, CompileError>, s: Result<ObjectView, ErrorView>) -> bool {
    match r {
        Ok(v) => s == Ok::<ObjectView, ErrorView>(v@),
        Err(e) => s == Err::<ObjectView, ErrorView>(e@),
    }
}

/// Compiling the same entry twice gives the same object: two runs on one
/// module, which both give what `compiled_object` gives, give the same
/// object or the same error.
pub proof fn lemma_compiling_twice(
    first: Result<Object, CompileError>,
    second: Result<Object, CompileError>,
    expected: Result<ObjectView, ErrorView>,
)
    requires
        object_outcome(first, expected),
        object_outcome(second, expected),
    ensures
        match (first, second) {
            (Ok(a), Ok(b)) => a@ == b@,
            (Err(a), Err(b)) => a@ == b@,
            _ => false,
        },
{
}

/// Whether the kept function `c` is what every function of its name in the
/// module lowers to.
pub open spec fn function_kept(
    c: &CachedFunction,
    module: &Module,
    analysis: &ModuleAnalysis,
    config: &Config,
) -> bool {
    forall|i: int|
        0 <= i < module.functions@.len() && (#[trigger] module.functions@[i]).name@ == c.name@
            ==> function_of(module, analysis, config, &module.functions@[i]) == Ok::<
            (FunctionDefinitionView, Seq<Seq<char>>),
            ErrorView,
        >((c.def@, string_views(c.objects@)))
}

/// Whether the kept object `c` is what its entry compiles to.
pub open spec fn object_kept(
    c: &CachedObject,
    module: &Module,
    analysis: &ModuleAnalysis,
    config: &Config,
) -> bool {
    compiled_object(module, analysis, config, c.name@) == Ok::<ObjectView, ErrorView>(c.object@)
}

/// Whether a function is kept under `name`.
pub open spec fn keeps_function(kept: Seq<CachedFunction>, name: Seq<char>) -> bool {
    exists|k: int| 0 <= k < kept.len() && #[trigger] kept[k].name@ == name
}

/// Whether an object is kept under `name`.
pub open spec fn keeps_object(kept: Seq<CachedObject>, name: Seq<char>) -> bool {
    exists|k: int| 0 <= k < kept.len() && #[trigger] kept[k].name@ == name
}

/// The objects that the entries from position `from` on compile to.
pub open spec fn compiled_objects(
    module: &Module,
    analysis: &ModuleAnalysis,
    config: &Config,
    entries: Seq<Seq<char>>,
    from: nat,
) -> Result<Seq<ObjectView>, ErrorView>
    decreases entries.len() - from,
{
    if from >= entries.len() {
        Ok(Seq::empty())
    } else {
        match compiled_object(module, analysis, config, entries[from as int]) {
            Err(e) => Err(e),
            Ok(o) => match compiled_objects(module, analysis, config, entries, from + 1) {
                Err(e) => Err(e),
                Ok(rest) => Ok(seq![o] + rest),
            },
        }
    }
}

/// Whether no two functions of the module have the same name.
pub fn check_distinct_names(module: &Module) -> (r: bool)
    ensures
        r == distinct_names(module),
{
    let n = module.functions.len();
    let mut j: usize = 0;
    while j < n
        invariant
            j <= n,
            n == module.functions.len(),
            forall|a: int, b: int|
                0 <= a < b < j ==> #[trigger] module.functions@[a].name@
                    != #[trigger] module.functions@[b].name@,
        decreases n - j,
    {
        let mut i: usize = 0;
        while i < j
            invariant
                i <= j,
                j < n,
                n == module.functions.len(),
                forall|a: int| 0 <= a < i ==> #[trigger] module.functions@[a].name@
                    != module.functions@[j as int].name@,
            decreases j - i,
        {
            if str_eq(module.functions[i].name.as_str(), module.functions[j].name.as_str()) {
                return false;
            }
            i += 1;
        }
        j += 1;
    }
    true
}

/// The entry block that the analysis gives for the function `f`.
pub fn entry_block<'a>(analysis: &'a ModuleAnalysis, f: &str) -> (r: Option<&'a Name>)
    ensures
        match r {
            Some(e) => entry_of(analysis.entries@, f@, 0) == Some(*e),
            None => entry_of(analysis.entries@, f@, 0) is None,
        },
{
    let n = analysis.entries.len();
    let mut i: usize = 0;
    while i < n
        invariant
            i <= n,
            n == analysis.entries.len(),
            entry_of(analysis.entries@, f@, 0) == entry_of(analysis.entries@, f@, i as int),
        decreases n - i,
    {
        if str_eq(analysis.entries[i].function.as_str(), f) {
            return Some(&analysis.entries[i].block);
        }
        i += 1;
    }
    None
}

/// Whether `names` holds `name`.
pub fn contains_name(names: &Vec<String>, name: &str) -> (r: bool)
    ensures
        r == holds(names@, name@),
{
    let n = names.len();
    let mut i: usize = 0;
    while i < n
        invariant
            i <= n,
            n == names.len(),
            forall|j: int| 0 <= j < i ==> #[trigger] names@[j]@ != name@,
        decreases n - i,
    {
        if str_eq(names[i].as_str(), name) {
            return true;
        }
        i += 1;
    }
    false
}

impl Compiler {
    /// A compiler with the configuration `config`, which has kept nothing yet.
    pub fn new(config: Config) -> (r: Self)
        ensures
            r.config == config,
            r.func_caches@.len() == 0,
            r.objects_caches@.len() == 0,
    {
        Compiler { config, func_caches: Vec::new(), objects_caches: Vec::new() }
    }

    /// Whether what the compiler has kept is what the module compiles to.
    /// A compiler that has kept nothing meets this for every module.
    pub open spec fn cache_ok(&self, module: &Module, analysis: &ModuleAnalysis) -> bool {
        &&& forall|k: int|
            0 <= k < self.func_caches@.len() ==> function_kept(
                #[trigger] &self.func_caches@[k],
                module,
                analysis,
                &self.config,
            )
        &&& forall|k: int|
            0 <= k < self.objects_caches@.len() ==> object_kept(
                #[trigger] &self.objects_caches@[k],
                module,
                analysis,
                &self.config,
            )
    }

    /// The definition of the function at position `i` of the module, and
    /// the objects that it embeds: what was kept for its name, or else what
    /// it lowers to, which is then kept.
    fn compile_function(&mut self, module: &Module, analysis: &ModuleAnalysis, i: usize) -> (r:
        Result<(FunctionDefinition, Vec<String>), CompileError>)
        requires
            old(self).cache_ok(module, analysis),
            distinct_names(module),
            i < module.functions@.len(),
        ensures
            final(self).config == old(self).config,
            final(self).objects_caches == old(self).objects_caches,
            final(self).cache_ok(module, analysis),
            forall|name: Seq<char>|
                keeps_function(old(self).func_caches@, name) ==> keeps_function(
                    final(self).func_caches@,
                    name,
                ),
            match function_of(module, analysis, &old(self).config, &module.functions@[i as int]) {
                Ok((def, objects)) => r matches Ok(p) && p.0@ == def && string_views(p.1@)
                    == objects && keeps_function(
                    final(self).func_caches@,
                    module.functions@[i as int].name@,
                ),
                Err(e) => r matches Err(x) && x@ == e,
            },
    {
        let f = &module.functions[i];
        let n = self.func_caches.len();
        let mut k: usize = 0;
        while k < n
            invariant
                k <= n,
                n == self.func_caches.len(),
                self == old(self),
                i < module.functions@.len(),
                f == &module.functions@[i as int],
                self.cache_ok(module, analysis),
            decreases n - k,
        {
            if str_eq(self.func_caches[k].name.as_str(), f.name.as_str()) {
                proof {
                    assert(function_kept(&self.func_caches@[k as int], module, analysis, &self.config));
                    assert(module.functions@[i as int].name@ == self.func_caches@[k as int].name@);
                }
                return Ok(
                    (self.func_caches[k].def.clone(), clone_strings(&self.func_caches[k].objects)),
                );
            }
            k += 1;
        }
        let entry = match entry_block(analysis, f.name.as_str()) {
            Some(e) => e,
            None => {
                return Err(CompileError::new(ErrorKind::MissingBasicBlock, f.name.as_str()));
            },
        };
        match compile_function(f, &module.types, &self.config, entry) {
            Err(e) => Err(e),
            Ok((def, objects)) => {
                let kept = CachedFunction {
                    name: f.name.clone(),
                    def: def.clone(),
                    objects: clone_strings(&objects),
                };
                proof {
                    assert forall|j: int|
                        0 <= j < module.functions@.len() && (#[trigger] module.functions@[j]).name@
                            == kept.name@ implies function_of(
                        module,
                        analysis,
                        &self.config,
                        &module.functions@[j],
                    ) == Ok::<(FunctionDefinitionView, Seq<Seq<char>>), ErrorView>(
                        (kept.def@, string_views(kept.objects@)),
                    ) by {
                        if j < i {
                            assert(module.functions@[j].name@ != module.functions@[i as int].name@);
                        } else if i < j {
                            assert(module.functions@[i as int].name@ != module.functions@[j].name@);
                        }
                    }
                }
                let ghost before = self.func_caches@;
                self.func_caches.push(kept);
                proof {
                    assert(self.func_caches@[before.len() as int].name@ == f.name@);
                    assert forall|name: Seq<char>| keeps_function(before, name) implies keeps_function(
                        self.func_caches@,
                        name,
                    ) by {
                        let k = choose|k: int| 0 <= k < before.len() && #[trigger] before[k].name@ == name;
                        assert(self.func_caches@[k].name@ == name);
                    }
                    assert forall|k: int| 0 <= k < self.func_caches@.len() implies function_kept(
                        #[trigger] &self.func_caches@[k],
                        module,
                        analysis,
                        &self.config,
                    ) by {
                        if k < before.len() {
                            assert(self.func_caches@[k] == before[k]);
                            assert(function_kept(&before[k], module, analysis, &self.config));
                        }
                    }
                }
                Ok((def, objects))
            },
        }
    }

    /// The object of `entry`, with objects nested in it at most `depth` deep.
    fn compile_object_at(
        &mut self,
        module: &Module,
        analysis: &ModuleAnalysis,
        entry: &str,
        depth: usize,
    ) -> (r: Result<Object, CompileError>)
        requires
            old(self).cache_ok(module, analysis),
            distinct_names(module),
        ensures
            final(self).config == old(self).config,
            final(self).objects_caches == old(self).objects_caches,
            final(self).cache_ok(module, analysis),
            object_outcome(
                r,
                object_of(module, analysis, &old(self).config, entry@, depth as nat),
            ),
        decreases depth, 2nat, 0nat,
    {
        let ghost config = self.config;
        let ghost total = object_parts(module, analysis, &config, entry@, depth as nat, 0);
        let functions = get_all_callees(&analysis.call_graph, entry);
        let mut code: Vec<Statement> = Vec::new();
        let mut objects: Vec<Object> = Vec::new();
        let n = module.functions.len();
        let mut i: usize = 0;
        assert(stmt_views(code@) =~= Seq::empty());
        assert(object_views(objects@) =~= Seq::empty());
        while i < n
            invariant
                i <= n,
                n == module.functions.len(),
                distinct_names(module),
                self.config == config,
                config == old(self).config,
                self.objects_caches == old(self).objects_caches,
                self.cache_ok(module, analysis),
                forall|name: Seq<char>|
                    holds(functions@, name) <==> reachable(&analysis.call_graph, entry@, name),
                total == object_parts(module, analysis, &config, entry@, depth as nat, 0),
                match object_parts(module, analysis, &config, entry@, depth as nat, i as nat) {
                    Ok((rest, more)) => total == Ok::<
                        (Seq<StatementView>, Seq<ObjectView>),
                        ErrorView,
                    >((stmt_views(code@) + rest, object_views(objects@) + more)),
                    Err(e) => total == Err::<(Seq<StatementView>, Seq<ObjectView>), ErrorView>(e),
                },
            decreases n - i,
        {
            let func = &module.functions[i];
            if contains_name(&functions, func.name.as_str()) || str_eq(func.name.as_str(), entry) {
                let ghost code_before = stmt_views(code@);
                let ghost objects_before = object_views(objects@);
                let (function, names) = match self.compile_function(module, analysis, i) {
                    Ok(p) => p,
                    Err(e) => {
                        return Err(e);
                    },
                };
                let ghost def = function@;
                let mut subs = match self.compile_objects(module, analysis, &names, depth) {
                    Ok(s) => s,
                    Err(e) => {
                        return Err(e);
                    },
                };
                let ghost nested = object_views(subs@);
                code.push(Statement::FunctionDefinition(function));
                objects.append(&mut subs);
                proof {
                    let one = seq![StatementView::FunctionDefinition(def)];
                    assert(stmt_views(code@) =~= code_before + one);
                    assert(object_views(objects@) =~= objects_before + nested);
                    match object_parts(
                        module,
                        analysis,
                        &config,
                        entry@,
                        depth as nat,
                        (i + 1) as nat,
                    ) {
                        Ok((rest, more)) => {
                            assert(code_before + (one + rest) =~= (code_before + one) + rest);
                            assert(objects_before + (nested + more) =~= (objects_before + nested)
                                + more);
                        },
                        Err(_) => {},
                    }
                }
            }
            i += 1;
        }
        let call = FunctionCall { name: Ident(tidy_name(entry)), args: Vec::new() };
        proof {
            lemma_call_args(&call);
            assert(call@.args =~= Seq::empty());
        }
        let ghost code_before = stmt_views(code@);
        code.push(Statement::FunctionCall(call));
        let block = Block(code);
        proof {
            lemma_block_view(&block);
            assert(stmt_views(block.0@) =~= code_before + seq![entry_call(entry@)]);
            assert(object_views(objects@) + Seq::<ObjectView>::empty() =~= object_views(objects@));
        }
        let object = Object { name: Ident(entry.to_owned()), code: block, data: Vec::new(), objects };
        proof {
            assert(object@.data =~= Seq::empty());
            assert(object@.objects =~= object_views(object.objects@));
        }
        Ok(object)
    }

    /// The objects of the entries `names`, nested at most `depth` deep.
    fn compile_objects(
        &mut self,
        module: &Module,
        analysis: &ModuleAnalysis,
        names: &Vec<String>,
        depth: usize,
    ) -> (r: Result<Vec<Object>, CompileError>)
        requires
            old(self).cache_ok(module, analysis),
            distinct_names(module),
        ensures
            final(self).config == old(self).config,
            final(self).objects_caches == old(self).objects_caches,
            final(self).cache_ok(module, analysis),
            match nested_objects(
                module,
                analysis,
                &old(self).config,
                string_views(names@),
                depth as nat,
                0,
            ) {
                Ok(s) => r matches Ok(v) && object_views(v@) == s,
                Err(e) => r matches Err(x) && x@ == e,
            },
        decreases depth, 0nat, names.len(),
    {
        let ghost config = self.config;
        let ghost all = string_views(names@);
        let ghost total = nested_objects(module, analysis, &config, all, depth as nat, 0);
        let n = names.len();
        let mut out: Vec<Object> = Vec::new();
        let mut i: usize = 0;
        assert(object_views(out@) =~= Seq::empty());
        while i < n
            invariant
                i <= n,
                n == names.len(),
                all == string_views(names@),
                distinct_names(module),
                self.config == config,
                config == old(self).config,
                self.objects_caches == old(self).objects_caches,
                self.cache_ok(module, analysis),
                total == nested_objects(module, analysis, &config, all, depth as nat, 0),
                match nested_objects(module, analysis, &config, all, depth as nat, i as nat) {
                    Ok(rest) => total == Ok::<Seq<ObjectView>, ErrorView>(
                        object_views(out@) + rest,
                    ),
                    Err(e) => total == Err::<Seq<ObjectView>, ErrorView>(e),
                },
            decreases n - i,
        {
            let ghost before = object_views(out@);
            if depth == 0 {
                return Err(CompileError::new(ErrorKind::CyclicObject, names[i].as_str()));
            }
            let o = match self.compile_object_at(module, analysis, names[i].as_str(), depth - 1) {
                Ok(o) => o,
                Err(e) => {
                    return Err(e);
                },
            };
            let ghost one = seq![o@];
            out.push(o);
            proof {
                assert(object_views(out@) =~= before + one);
                match nested_objects(module, analysis, &config, all, depth as nat, (i + 1) as nat) {
                    Ok(rest) => {
                        assert(before + (one + rest) =~= (before + one) + rest);
                    },
                    Err(_) => {},
                }
            }
            i += 1;
        }
        proof {
            assert(object_views(out@) + Seq::<ObjectView>::empty() =~= object_views(out@));
        }
        Ok(out)
    }

    /// The object that `entry` compiles to: what was kept for `entry`, or
    /// else what the module gives, which is then kept.
    pub fn compile_object(&mut self, module: &Module, analysis: &ModuleAnalysis, entry: &str) -> (r:
        Result<Object, CompileError>)
        requires
            old(self).cache_ok(module, analysis),
        ensures
            final(self).config == old(self).config,
            final(self).cache_ok(module, analysis),
            object_outcome(r, compiled_object(module, analysis, &old(self).config, entry@)),
            r is Ok ==> keeps_object(final(self).objects_caches@, entry@),
    {
        let n = self.objects_caches.len();
        let mut k: usize = 0;
        while k < n
            invariant
                k <= n,
                n == self.objects_caches.len(),
                self == old(self),
                self.cache_ok(module, analysis),
            decreases n - k,
        {
            if str_eq(self.objects_caches[k].name.as_str(), entry) {
                proof {
                    assert(object_kept(&self.objects_caches@[k as int], module, analysis, &self.config));
                }
                return Ok(self.objects_caches[k].object.clone());
            }
            k += 1;
        }
        if !check_distinct_names(module) {
            return Err(CompileError::bare(ErrorKind::DuplicateFunction));
        }
        match self.compile_object_at(module, analysis, entry, module.functions.len()) {
            Err(e) => Err(e),
            Ok(object) => {
                let kept = CachedObject { name: entry.to_owned(), object: object.clone() };
                let ghost before = self.objects_caches@;
                self.objects_caches.push(kept);
                proof {
                    assert(self.objects_caches@[before.len() as int].name@ == entry@);
                    assert forall|k: int| 0 <= k < self.objects_caches@.len() implies object_kept(
                        #[trigger] &self.objects_caches@[k],
                        module,
                        analysis,
                        &self.config,
                    ) by {
                        if k < before.len() {
                            assert(self.objects_caches@[k] == before[k]);
                            assert(object_kept(&before[k], module, analysis, &self.config));
                        }
                    }
                }
                Ok(object)
            },
        }
    }
}

/// The objects that `entries` compile to, in order, by one compiler with
/// the configuration `config`: a function that several of the objects need
/// is compiled once.
pub fn compile_entries(
    config: Config,
    module: &Module,
    analysis: &ModuleAnalysis,
    entries: &Vec<String>,
) -> (r: Result<Vec<Object>, CompileError>)
    ensures
        match compiled_objects(module, analysis, &config, string_views(entries@), 0) {
            Ok(s) => r matches Ok(v) && object_views(v@) == s,
            Err(e) => r matches Err(x) && x@ == e,
        },
{
    let ghost all = string_views(entries@);
    let ghost total = compiled_objects(module, analysis, &config, all, 0);
    let mut compiler = Compiler::new(config);
    let n = entries.len();
    let mut out: Vec<Object> = Vec::new();
    let mut i: usize = 0;
    assert(object_views(out@) =~= Seq::empty());
    while i < n
        invariant
            i <= n,
            n == entries.len(),
            all == string_views(entries@),
            compiler.config == config,
            compiler.cache_ok(module, analysis),
            total == compiled_objects(module, analysis, &config, all, 0),
            match compiled_objects(module, analysis, &config, all, i as nat) {
                Ok(rest) => total == Ok::<Seq<ObjectView>, ErrorView>(object_views(out@) + rest),
                Err(e) => total == Err::<Seq<ObjectView>, ErrorView>(e),
            },
        decreases n - i,
    {
        let ghost before = object_views(out@);
        let o = match compiler.compile_object(module, analysis, entries[i].as_str()) {
            Ok(o) => o,
            Err(e) => {
                return Err(e);
            },
        };
        let ghost one = seq![o@];
        out.push(o);
        proof {
            assert(object_views(out@) =~= before + one);
            match compiled_objects(module, analysis, &config, all, (i + 1) as nat) {
                Ok(rest) => {
                    assert(before + (one + rest) =~= (before + one) + rest);
                },
                Err(_) => {},
            }
        }
        i += 1;
    }
    proof {
        assert(object_views(out@) + Seq::<ObjectView>::empty() =~= object_views(out@));
    }
    Ok(out)
}

} // verus!
