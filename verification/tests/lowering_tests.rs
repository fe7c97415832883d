use llvm2yul::block::BlockCompiler;
use llvm2yul::compiler::{compile_entries, Compiler};
use llvm2yul::config::Config;
use llvm2yul::constant::ConstantFlatter;
use llvm2yul::error::{CompileError, ErrorKind};
use llvm2yul::function::{compile_function, FunctionCompiler};
use llvm2yul::insts::alloca::AllocaCompiler;
use llvm2yul::insts::call::{
    build_call_function_args, build_call_function_name, build_object_entry, convert_builtin,
    convert_literal, CallCompiler,
};
use llvm2yul::insts::extractvalue::ExtractValueCompiler;
use llvm2yul::insts::insertvalue::InsertValueCompiler;
use llvm2yul::insts::ptr_int::PtrIntCompiler;
use llvm2yul::insts::select::SelectCompiler;
use llvm2yul::ir::{
    Alloca, BasicBlock, Br, Call, CallGraph, Callee, Callees, CondBr, Constant, EntryBlock,
    ExtractValue, Function, Incoming, InsertValue, Instruction, IntToPtr, Module, ModuleAnalysis,
    Name, NamedStruct, NamedStructDef, Operand, Parameter, Phi, PtrToInt, Ret, Select, Switch,
    SwitchDest, Terminator, Type, Types,
};
use llvm2yul::types::{flatten_struct_type, TypeFlatter};
use llvm2yul::utils::builtin::{builtin_args_num, is_builtin};
use llvm2yul::utils::call_graph::get_all_callees;
use llvm2yul::utils::control_block::{build_control_block_from_entry, compile_return_value};
use llvm2yul::utils::name::{tidy_name, yul_ident_name};
use llvm2yul::yuler::ident::Ident;
use llvm2yul::yuler::literal::Literal;
use llvm2yul::yuler::object::Object;
use llvm2yul::yuler::statement::{Block, Statement};
use llvm2yul::yuler::value::{FunctionCall, Value};
use llvm2yul::yuler::writer::Writer;

fn name(s: &str) -> Name {
    Name::Name(s.to_string())
}

fn int_ty(bits: u32) -> Type {
    Type::IntegerType { bits }
}

fn ptr() -> Type {
    Type::PointerType { addr_space: 0 }
}

fn strukt(fields: Vec<Type>) -> Type {
    Type::StructType { element_types: fields, is_packed: false }
}

fn array(elem: Type, n: usize) -> Type {
    Type::ArrayType { element_type: Box::new(elem), num_elements: n }
}

fn named(s: &str) -> Type {
    Type::NamedStructType { name: s.to_string() }
}

fn func_ty(result: Type, params: Vec<Type>) -> Type {
    Type::FuncType { result_type: Box::new(result), param_types: params, is_var_arg: false }
}

fn local(s: &str, ty: Type) -> Operand {
    Operand::LocalOperand { name: name(s), ty }
}

fn cint(value: u64) -> Operand {
    Operand::ConstantOperand(Constant::Int { bits: 32, value })
}

fn gref(s: &str, ty: Type) -> Operand {
    Operand::ConstantOperand(Constant::GlobalReference { name: name(s), ty })
}

fn no_types() -> Types {
    Types { named_struct_defs: Vec::new() }
}

fn call(target: &str, ty: Type, arguments: Vec<Operand>, dest: Option<&str>) -> Call {
    Call { function: Callee::Operand(gref(target, ty)), arguments, dest: dest.map(name) }
}

fn names(idents: &[Ident]) -> Vec<String> {
    idents.iter().map(|i| i.0.clone()).collect()
}

fn render(stmts: Vec<Statement>) -> String {
    let mut out = String::new();
    for s in stmts {
        let mut w = Writer::new(Vec::new(), "  ");
        s.write(&mut w).unwrap();
        out.push_str(&String::from_utf8(w.w).unwrap());
        out.push('\n');
    }
    out
}

fn render_values(values: &[Value]) -> Vec<String> {
    values
        .iter()
        .map(|v| {
            let mut w = Writer::new(Vec::new(), "  ");
            v.write(&mut w).unwrap();
            String::from_utf8(w.w).unwrap()
        })
        .collect()
}

fn kind_of<T: std::fmt::Debug>(r: Result<T, CompileError>) -> ErrorKind {
    r.unwrap_err().kind
}

fn block(label: &str, instrs: Vec<Instruction>, term: Terminator) -> BasicBlock {
    BasicBlock { name: name(label), instrs, term }
}

fn ret_void() -> Terminator {
    Terminator::Ret(Ret { return_operand: None })
}

fn function(fname: &str, blocks: Vec<BasicBlock>) -> Function {
    Function {
        name: fname.to_string(),
        parameters: Vec::new(),
        return_type: Type::VoidType,
        basic_blocks: blocks,
    }
}

fn analysis(edges: Vec<(&str, Vec<&str>)>, entries: Vec<(&str, &str)>) -> ModuleAnalysis {
    ModuleAnalysis {
        call_graph: graph(edges),
        entries: entries
            .into_iter()
            .map(|(f, b)| EntryBlock { function: f.to_string(), block: name(b) })
            .collect(),
    }
}

fn graph(edges: Vec<(&str, Vec<&str>)>) -> CallGraph {
    CallGraph {
        nodes: edges
            .into_iter()
            .map(|(caller, callees)| Callees {
                caller: caller.to_string(),
                callees: callees.into_iter().map(|c| c.to_string()).collect(),
            })
            .collect(),
    }
}

fn sorted(mut v: Vec<String>) -> Vec<String> {
    v.sort();
    v
}

// Names and the table of built-ins.

#[test]
fn tidy_name_replaces_dots_and_dollars() {
    assert_eq!(tidy_name("a.b$c_d"), "a_b_c_d");
    assert_eq!(tidy_name(""), "");
    assert_eq!(tidy_name("plain"), "plain");
}

#[test]
fn yul_ident_name_of_names_and_numbers() {
    assert_eq!(yul_ident_name(&name("x.1")), "x_1");
    assert_eq!(yul_ident_name(&Name::Number(0)), "_l0");
    assert_eq!(yul_ident_name(&Name::Number(1234567890)), "_l1234567890");
}

#[test]
fn builtin_table_knows_its_primitives() {
    assert_eq!(builtin_args_num("__yul_stop"), Some(0));
    assert_eq!(builtin_args_num("__yul_add"), Some(2));
    assert_eq!(builtin_args_num("__yul_addmod"), Some(3));
    assert_eq!(builtin_args_num("__yul_extcodecopy"), Some(4));
    assert_eq!(builtin_args_num("__yul_log3"), Some(5));
    assert_eq!(builtin_args_num("__yul_staticcall"), Some(6));
    assert_eq!(builtin_args_num("__yul_call"), Some(7));
    assert_eq!(builtin_args_num("__yul_iszero"), Some(1));
    assert_eq!(builtin_args_num("__yul_gaslimit"), Some(0));
    assert!(is_builtin("__yul_sstore"));
}

#[test]
fn builtin_table_refuses_other_names() {
    assert_eq!(builtin_args_num("stop"), None);
    assert_eq!(builtin_args_num("__yul_"), None);
    assert_eq!(builtin_args_num("__yul"), None);
    assert_eq!(builtin_args_num(""), None);
    assert_eq!(builtin_args_num("__yul_datasize"), None);
    assert_eq!(builtin_args_num("__yul__ext_literal"), None);
    assert_eq!(builtin_args_num("__yql_add"), None);
    assert_eq!(builtin_args_num("__yul_Add"), None);
    assert!(!is_builtin("_entry"));
}

// The type flattener.

#[test]
fn flatten_scalars_give_one_slot() {
    let types = no_types();
    let config = Config::default();
    let f = TypeFlatter::new(&types, &config);
    assert_eq!(names(&f.flatten_parameter(&name("a"), &int_ty(256)).unwrap()), vec!["a"]);
    assert_eq!(names(&f.flatten_parameter(&name("p.q"), &ptr()).unwrap()), vec!["p_q"]);
    assert_eq!(names(&f.flatten_parameter(&Name::Number(7), &int_ty(1)).unwrap()), vec!["_l7"]);
    assert_eq!(names(&f.flatten_return_type(&int_ty(64)).unwrap()), vec!["__yn_return"]);
}

#[test]
fn flatten_struct_and_array_name_slots_by_position() {
    let types = no_types();
    let config = Config::default();
    let f = TypeFlatter::new(&types, &config);
    let ty = strukt(vec![int_ty(32), array(int_ty(8), 2), strukt(vec![ptr()])]);
    assert_eq!(
        names(&f.flatten_parameter(&name("s"), &ty).unwrap()),
        vec!["s_0", "s_1_0", "s_1_1", "s_2_0"]
    );
    assert_eq!(
        names(&f.flatten_return_type(&strukt(vec![int_ty(8), int_ty(8)])).unwrap()),
        vec!["__yn_return_0", "__yn_return_1"]
    );
    assert!(f.flatten_parameter(&name("e"), &array(int_ty(8), 0)).unwrap().is_empty());
    assert!(f.flatten_parameter(&name("e"), &strukt(vec![])).unwrap().is_empty());
}

#[test]
fn flatten_numbers_positions_in_decimal() {
    let types = no_types();
    let config = Config::default();
    let f = TypeFlatter::new(&types, &config);
    let got = names(&f.flatten_parameter(&name("a"), &array(int_ty(8), 12)).unwrap());
    assert_eq!(got.len(), 12);
    assert_eq!(got[9], "a_9");
    assert_eq!(got[10], "a_10");
    assert_eq!(got[11], "a_11");
}

#[test]
fn flatten_void_only_where_allowed() {
    let types = no_types();
    let config = Config::default();
    let f = TypeFlatter::new(&types, &config);
    assert!(f.flatten_return_type(&Type::VoidType).unwrap().is_empty());
    let e = f.flatten_parameter(&name("v"), &Type::VoidType).unwrap_err();
    assert_eq!(e.kind, ErrorKind::UnsupportedVoid);
    assert_eq!(e.subject, "v");
}

#[test]
fn flatten_refuses_wide_integers() {
    let types = no_types();
    let config = Config::default();
    let f = TypeFlatter::new(&types, &config);
    assert!(f.flatten_parameter(&name("w"), &int_ty(256)).is_ok());
    assert_eq!(kind_of(f.flatten_parameter(&name("w"), &int_ty(257))), ErrorKind::UnsupportedWidth);
    assert_eq!(
        kind_of(f.flatten_parameter(&name("w"), &strukt(vec![int_ty(8), int_ty(512)]))),
        ErrorKind::UnsupportedWidth
    );
}

#[test]
fn flatten_refuses_other_kinds() {
    let types = no_types();
    let config = Config::default();
    let f = TypeFlatter::new(&types, &config);
    let e = f.flatten_parameter(&name("x"), &Type::Other { text: "float".to_string() }).unwrap_err();
    assert_eq!(e.kind, ErrorKind::UnsupportedType);
    assert_eq!(e.subject, "float");
    assert_eq!(e.message(), "UnsupportedType: float");
    assert_eq!(
        kind_of(f.flatten_parameter(&name("x"), &func_ty(Type::VoidType, vec![]))),
        ErrorKind::UnsupportedType
    );
}

#[test]
fn flatten_named_types() {
    let types = Types {
        named_struct_defs: vec![
            NamedStruct {
                name: "Pair".to_string(),
                def: NamedStructDef::Defined(strukt(vec![int_ty(64), named("patine_core::uint::U256")])),
            },
            NamedStruct { name: "Hidden".to_string(), def: NamedStructDef::Opaque },
            NamedStruct {
                name: "Loop".to_string(),
                def: NamedStructDef::Defined(strukt(vec![named("Loop")])),
            },
            NamedStruct {
                name: "Outer".to_string(),
                def: NamedStructDef::Defined(strukt(vec![named("Pair"), int_ty(8)])),
            },
        ],
    };
    let config = Config::default();
    let f = TypeFlatter::new(&types, &config);
    assert_eq!(
        names(&f.flatten_parameter(&name("u"), &named("patine_core::uint::U256")).unwrap()),
        vec!["u"]
    );
    assert_eq!(names(&f.flatten_parameter(&name("p"), &named("Pair")).unwrap()), vec!["p_0", "p_1"]);
    assert_eq!(
        names(&f.flatten_parameter(&name("o"), &named("Outer")).unwrap()),
        vec!["o_0_0", "o_0_1", "o_1"]
    );
    let e = f.flatten_parameter(&name("h"), &named("Hidden")).unwrap_err();
    assert_eq!(e.kind, ErrorKind::LinkError);
    assert_eq!(e.subject, "Hidden");
    assert_eq!(kind_of(f.flatten_parameter(&name("m"), &named("Missing"))), ErrorKind::LinkError);
    assert_eq!(kind_of(f.flatten_parameter(&name("l"), &named("Loop"))), ErrorKind::LinkError);
}

#[test]
fn named_types_resolve_as_deep_as_the_table_is_long() {
    let types = Types {
        named_struct_defs: vec![
            NamedStruct { name: "A".to_string(), def: NamedStructDef::Defined(strukt(vec![named("B")])) },
            NamedStruct { name: "B".to_string(), def: NamedStructDef::Defined(strukt(vec![named("C"), named("C")])) },
            NamedStruct { name: "C".to_string(), def: NamedStructDef::Defined(strukt(vec![int_ty(8)])) },
            NamedStruct { name: "C".to_string(), def: NamedStructDef::Opaque },
        ],
    };
    let config = Config::default();
    let f = TypeFlatter::new(&types, &config);
    assert_eq!(
        names(&f.flatten_parameter(&name("v"), &named("A")).unwrap()),
        vec!["v_0_0_0", "v_0_1_0"]
    );
    assert_eq!(f.compute_size(&named("A")).unwrap(), 2);
    assert_eq!(names(&f.iter_type("v", &named("C"), false, 1).unwrap()), vec!["v_0"]);
    assert_eq!(kind_of(f.iter_type("v", &named("C"), false, 0)), ErrorKind::LinkError);
    assert_eq!(kind_of(f.iter_type("v", &named("A"), false, 2)), ErrorKind::LinkError);
    assert_eq!(kind_of(f.size_with_fuel(&named("A"), 2)), ErrorKind::LinkError);
}

#[test]
fn flatten_with_and_without_a_name() {
    let types = no_types();
    let config = Config::default();
    let pair = strukt(vec![int_ty(8), ptr()]);
    assert_eq!(
        names(&flatten_struct_type(&types, &config, Some(&name("a.b")), &pair, false).unwrap()),
        vec!["a_b_0", "a_b_1"]
    );
    assert_eq!(
        names(&flatten_struct_type(&types, &config, None, &pair, true).unwrap()),
        vec!["__yn_return_0", "__yn_return_1"]
    );
    assert!(flatten_struct_type(&types, &config, None, &Type::VoidType, true).unwrap().is_empty());
    assert_eq!(
        kind_of(flatten_struct_type(&types, &config, None, &Type::VoidType, false)),
        ErrorKind::UnsupportedVoid
    );
}

#[test]
fn flattening_twice_gives_the_same_slots() {
    let types = no_types();
    let config = Config::default();
    let f = TypeFlatter::new(&types, &config);
    let ty = strukt(vec![array(strukt(vec![int_ty(8), ptr()]), 3), int_ty(256)]);
    let first = names(&f.flatten_parameter(&name("v"), &ty).unwrap());
    let second = names(&f.flatten_parameter(&name("v"), &ty).unwrap());
    assert_eq!(first, second);
    assert_eq!(first.len(), 3 * 2 + 1);
}

#[test]
fn argument_and_parameter_have_the_same_number_of_slots() {
    let types = no_types();
    let config = Config::default();
    let f = TypeFlatter::new(&types, &config);
    let ty = strukt(vec![int_ty(32), array(int_ty(8), 4), ptr()]);
    let at_call = f.flatten_parameter(&name("argument.1"), &ty).unwrap();
    let at_callee = f.flatten_parameter(&name("p"), &ty).unwrap();
    assert_eq!(at_call.len(), at_callee.len());
    assert_eq!(at_call.len(), 6);
}

#[test]
fn sizes_of_types() {
    let types = Types {
        named_struct_defs: vec![NamedStruct {
            name: "Pair".to_string(),
            def: NamedStructDef::Defined(strukt(vec![int_ty(8), int_ty(64)])),
        }],
    };
    let config = Config::default();
    let f = TypeFlatter::new(&types, &config);
    assert_eq!(f.compute_size(&Type::VoidType).unwrap(), 0);
    assert_eq!(f.compute_size(&int_ty(1)).unwrap(), 1);
    assert_eq!(f.compute_size(&int_ty(8)).unwrap(), 1);
    assert_eq!(f.compute_size(&int_ty(9)).unwrap(), 32);
    assert_eq!(f.compute_size(&int_ty(256)).unwrap(), 32);
    assert_eq!(f.compute_size(&ptr()).unwrap(), 32);
    assert_eq!(f.compute_size(&array(int_ty(8), 10)).unwrap(), 10);
    assert_eq!(f.compute_size(&array(int_ty(256), 4)).unwrap(), 128);
    assert_eq!(f.compute_size(&strukt(vec![int_ty(8), int_ty(16), ptr()])).unwrap(), 65);
    assert_eq!(f.compute_size(&named("Pair")).unwrap(), 33);
    assert_eq!(f.compute_size(&named("patine_core::uint::U8")).unwrap(), 32);
    assert_eq!(kind_of(f.compute_size(&named("Nowhere"))), ErrorKind::LinkError);
    assert_eq!(
        kind_of(f.compute_size(&Type::Other { text: "double".to_string() })),
        ErrorKind::UnsupportedType
    );
}

#[test]
fn sizes_that_do_not_fit() {
    let types = no_types();
    let config = Config::default();
    let f = TypeFlatter::new(&types, &config);
    let huge = array(array(int_ty(256), usize::MAX), 2);
    assert_eq!(kind_of(f.compute_size(&huge)), ErrorKind::SizeOverflow);
    let halves = strukt(vec![array(int_ty(8), usize::MAX), array(int_ty(8), usize::MAX)]);
    assert_eq!(kind_of(f.compute_size(&halves)), ErrorKind::SizeOverflow);
}

// The constant flattener.

#[test]
fn constants_flatten_to_literals() {
    let types = no_types();
    let config = Config::default();
    let f = ConstantFlatter::new(&types, &config);
    let c = Constant::Struct {
        name: None,
        values: vec![
            Constant::Int { bits: 8, value: 7 },
            Constant::Null(ptr()),
            Constant::AggregateZero(array(int_ty(8), 2)),
            Constant::Array {
                element_type: int_ty(8),
                elements: vec![Constant::Int { bits: 8, value: 1 }, Constant::Undef(int_ty(8))],
            },
            Constant::PtrToInt {
                operand: Box::new(Constant::GlobalReference { name: name("g.x"), ty: int_ty(8) }),
                to_type: int_ty(64),
            },
            Constant::IntToPtr {
                operand: Box::new(Constant::Int { bits: 64, value: 9 }),
                to_type: ptr(),
            },
            Constant::Poison(strukt(vec![])),
        ],
        is_packed: false,
    };
    assert_eq!(
        render_values(&f.flatten(&c).unwrap()),
        vec!["7", "0", "0", "0", "1", "0", "\"g_x\"", "9"]
    );
}

#[test]
fn constants_of_other_kinds_are_refused() {
    let types = no_types();
    let config = Config::default();
    let f = ConstantFlatter::new(&types, &config);
    let e = f.flatten(&Constant::Other { text: "float 1.0".to_string() }).unwrap_err();
    assert_eq!(e.kind, ErrorKind::UnsupportedOperand);
    assert_eq!(e.subject, "float 1.0");
    assert_eq!(kind_of(f.flatten(&Constant::Undef(int_ty(300)))), ErrorKind::UnsupportedWidth);
}

// Reachability in the call graph.

#[test]
fn reachability_on_a_cycle() {
    let g = graph(vec![("A", vec!["B"]), ("B", vec!["A"])]);
    assert_eq!(sorted(get_all_callees(&g, "A")), vec!["A", "B"]);
}

#[test]
fn reachability_is_transitive_and_leaves_the_entry_out() {
    let g = graph(vec![
        ("main", vec!["f", "g"]),
        ("f", vec!["h", "g"]),
        ("g", vec![]),
        ("h", vec!["h", "k"]),
        ("lonely", vec!["far"]),
    ]);
    assert_eq!(sorted(get_all_callees(&g, "main")), vec!["f", "g", "h", "k"]);
    assert!(get_all_callees(&g, "g").is_empty());
    assert!(get_all_callees(&g, "unknown").is_empty());
}

#[test]
fn reachability_stops_at_builtins() {
    let g = graph(vec![
        ("_entry", vec!["__yul_add", "f"]),
        ("__yul_add", vec!["__yul_add", "hidden"]),
        ("f", vec!["__yul_sload"]),
        ("__yul_sload", vec!["deep"]),
    ]);
    assert_eq!(
        sorted(get_all_callees(&g, "_entry")),
        vec!["__yul_add", "__yul_sload", "f"]
    );
}

#[test]
fn reachability_uses_the_first_entry_of_a_caller() {
    let g = graph(vec![("a", vec!["b"]), ("a", vec!["c"]), ("b", vec!["b", "b"])]);
    assert_eq!(sorted(get_all_callees(&g, "a")), vec!["b"]);
}

// Calls.

#[test]
fn literal_of_eight_words_is_folded() {
    let types = no_types();
    let config = Config::default();
    let words = vec![cint(0), cint(0), cint(0), cint(0), cint(0), cint(0), cint(0), cint(0x2a)];
    let c = call("__yul__ext_literal", func_ty(int_ty(256), vec![]), words, Some("x"));
    let mut compiler = CallCompiler::new(&c, &types, &config);
    let stmt = compiler.compile_call().unwrap();
    assert_eq!(render(vec![stmt]), "let x := 0x2a\n");
    assert!(compiler.object.is_none());
}

#[test]
fn literal_folding_puts_the_first_word_highest() {
    let types = no_types();
    let config = Config::default();
    let words = vec![
        cint(1),
        cint(0),
        cint(0xdeadbeef),
        cint(0),
        cint(0),
        cint(0xffffffff),
        cint(0x10),
        cint(0xabc),
    ];
    let c = call("__yul__ext_literal", func_ty(int_ty(256), vec![]), words, Some("x"));
    let stmt = CallCompiler::new(&c, &types, &config).compile_call().unwrap();
    assert_eq!(
        render(vec![stmt]),
        "let x := 0x100000000deadbeef0000000000000000ffffffff0000001000000abc\n"
    );
    let zero = (0..8).map(|_| cint(0)).collect();
    let c = call("__yul__ext_literal", func_ty(int_ty(256), vec![]), zero, Some("z"));
    let stmt = CallCompiler::new(&c, &types, &config).compile_call().unwrap();
    assert_eq!(render(vec![stmt]), "let z := 0x0\n");
    let ones = (0..8).map(|_| cint(0xffffffff)).collect();
    let c = call("__yul__ext_literal", func_ty(int_ty(256), vec![]), ones, Some("m"));
    let stmt = CallCompiler::new(&c, &types, &config).compile_call().unwrap();
    assert_eq!(
        render(vec![stmt]),
        "let m := 0xffffffffffffffffffffffffffffffffffffffffffffffffffffffffffffffff\n"
    );
}

#[test]
fn literal_with_an_unknown_word_stays_a_call() {
    let types = no_types();
    let config = Config::default();
    let mut words: Vec<Operand> = (0..7).map(|_| cint(0)).collect();
    words.push(local("n", int_ty(32)));
    let c = call("__yul__ext_literal", func_ty(int_ty(256), vec![]), words, Some("x"));
    let stmt = CallCompiler::new(&c, &types, &config).compile_call().unwrap();
    assert_eq!(render(vec![stmt]), "let x := __yul__ext_literal(0, 0, 0, 0, 0, 0, 0, n)\n");
    let mut wide: Vec<Operand> = (0..7).map(|_| cint(0)).collect();
    wide.push(cint(0x1_0000_0000));
    let c = call("__yul__ext_literal", func_ty(int_ty(256), vec![]), wide, Some("x"));
    let stmt = CallCompiler::new(&c, &types, &config).compile_call().unwrap();
    assert_eq!(
        render(vec![stmt]),
        "let x := __yul__ext_literal(0, 0, 0, 0, 0, 0, 0, 4294967296)\n"
    );
    let seven: Vec<Operand> = (0..7).map(|_| cint(1)).collect();
    let c = call("__yul__ext_literal", func_ty(int_ty(256), vec![]), seven, Some("x"));
    let stmt = CallCompiler::new(&c, &types, &config).compile_call().unwrap();
    assert_eq!(render(vec![stmt]), "let x := __yul__ext_literal(1, 1, 1, 1, 1, 1, 1)\n");
}

#[test]
fn literal_is_folded_on_its_operands_alone() {
    let types = no_types();
    let config = Config::default();
    let two_zeros = Operand::ConstantOperand(Constant::Struct {
        name: None,
        values: vec![Constant::Int { bits: 32, value: 0 }, Constant::Int { bits: 32, value: 0 }],
        is_packed: false,
    });
    let args = vec![
        local("nothing", strukt(vec![])),
        two_zeros,
        cint(0),
        cint(0),
        cint(0),
        cint(0),
        cint(0),
        cint(0x2a),
    ];
    let c = call("__yul__ext_literal", func_ty(int_ty(256), vec![]), args, Some("d"));
    let stmt = CallCompiler::new(&c, &types, &config).compile_call().unwrap();
    assert_eq!(render(vec![stmt]), "let d := __yul__ext_literal(0, 0, 0, 0, 0, 0, 0, 42)\n");
    let mut first_local: Vec<Operand> = vec![local("w", int_ty(32))];
    first_local.extend((0..7).map(|_| cint(1)));
    let c = call("__yul__ext_literal", func_ty(int_ty(256), vec![]), first_local, Some("d"));
    let stmt = CallCompiler::new(&c, &types, &config).compile_call().unwrap();
    assert_eq!(render(vec![stmt]), "let d := __yul__ext_literal(w, 1, 1, 1, 1, 1, 1, 1)\n");
    let mut null_word: Vec<Operand> = (0..7).map(|_| cint(0)).collect();
    null_word.push(Operand::ConstantOperand(Constant::Null(ptr())));
    let c = call("__yul__ext_literal", func_ty(int_ty(256), vec![]), null_word, Some("d"));
    let stmt = CallCompiler::new(&c, &types, &config).compile_call().unwrap();
    assert_eq!(render(vec![stmt]), "let d := __yul__ext_literal(0, 0, 0, 0, 0, 0, 0, 0)\n");
    let nine: Vec<Operand> = (0..9).map(|_| cint(0)).collect();
    let c = call("__yul__ext_literal", func_ty(int_ty(256), vec![]), nine, Some("d"));
    let stmt = CallCompiler::new(&c, &types, &config).compile_call().unwrap();
    assert_eq!(render(vec![stmt]), "let d := __yul__ext_literal(0, 0, 0, 0, 0, 0, 0, 0, 0)\n");
    let no_dest: Vec<Operand> = (0..8).map(|_| cint(0)).collect();
    let c = call("__yul__ext_literal", func_ty(int_ty(256), vec![]), no_dest, None);
    let stmt = CallCompiler::new(&c, &types, &config).compile_call().unwrap();
    assert_eq!(render(vec![stmt]), "__yul__ext_literal(0, 0, 0, 0, 0, 0, 0, 0)\n");
    let mut unflattenable: Vec<Operand> = (0..7).map(|_| cint(0)).collect();
    unflattenable.push(local("wide", int_ty(512)));
    let c = call("__yul__ext_literal", func_ty(int_ty(256), vec![]), unflattenable, Some("d"));
    assert_eq!(
        kind_of(CallCompiler::new(&c, &types, &config).compile_call()),
        ErrorKind::UnsupportedWidth
    );
}

#[test]
fn convert_literal_on_calls() {
    let words: Vec<Value> = [0u64, 0, 0, 0, 0, 0, 1, 2]
        .iter()
        .map(|n| Value::Literal(Literal::int_number(*n).unwrap()))
        .collect();
    let fc = FunctionCall { name: Ident::new("__yul__ext_literal").unwrap(), args: words };
    let lit = convert_literal(&fc).unwrap().unwrap();
    let mut out = Vec::new();
    lit.write(&mut out).unwrap();
    assert_eq!(out, b"0x100000002");
    let other = FunctionCall { name: Ident::new("f").unwrap(), args: Vec::new() };
    assert!(convert_literal(&other).unwrap().is_none());
}

#[test]
fn builtin_call_loses_its_prefix() {
    let types = no_types();
    let config = Config::default();
    let c = call(
        "__yul_sstore",
        func_ty(Type::VoidType, vec![]),
        vec![local("slot.0", int_ty(32)), cint(5)],
        None,
    );
    let stmt = CallCompiler::new(&c, &types, &config).compile_call().unwrap();
    assert_eq!(render(vec![stmt]), "sstore(slot_0, 5)\n");
    let c = call("__yul_caller", func_ty(int_ty(32), vec![]), vec![], Some("who"));
    let stmt = CallCompiler::new(&c, &types, &config).compile_call().unwrap();
    assert_eq!(render(vec![stmt]), "let who := caller()\n");
}

#[test]
fn builtin_call_with_wrong_arity() {
    let types = no_types();
    let config = Config::default();
    let c = call("__yul_add", func_ty(int_ty(32), vec![]), vec![cint(1)], Some("s"));
    let e = CallCompiler::new(&c, &types, &config).compile_call().unwrap_err();
    assert_eq!(e.kind, ErrorKind::WrongArity);
    assert_eq!(e.subject, "__yul_add");
}

#[test]
fn builtin_arguments_are_not_taken_apart() {
    let types = no_types();
    let config = Config::default();
    let pair = strukt(vec![int_ty(8), int_ty(8)]);
    let c = call("__yul_mload", func_ty(int_ty(32), vec![]), vec![local("p", pair)], Some("v"));
    let stmt = CallCompiler::new(&c, &types, &config).compile_call().unwrap();
    assert_eq!(render(vec![stmt]), "let v := mload(p)\n");
}

#[test]
fn user_call_takes_structs_apart() {
    let types = no_types();
    let config = Config::default();
    let c = call(
        "make.pair",
        func_ty(strukt(vec![int_ty(8), int_ty(8)]), vec![]),
        vec![local("a", strukt(vec![int_ty(8), int_ty(8)])), cint(3), local("b", int_ty(64))],
        Some("r"),
    );
    let stmt = CallCompiler::new(&c, &types, &config).compile_call().unwrap();
    assert_eq!(render(vec![stmt]), "let r_0, r_1 := make_pair(a_0, a_1, 3, b)\n");
    let c = call("fire", func_ty(Type::VoidType, vec![]), vec![], None);
    let stmt = CallCompiler::new(&c, &types, &config).compile_call().unwrap();
    assert_eq!(render(vec![stmt]), "fire()\n");
}

#[test]
fn call_targets_that_are_refused() {
    let types = no_types();
    let config = Config::default();
    let inline = Call { function: Callee::InlineAssembly, arguments: vec![], dest: None };
    assert_eq!(
        kind_of(CallCompiler::new(&inline, &types, &config).compile_call()),
        ErrorKind::IndirectCallUnsupported
    );
    let through_local =
        Call { function: Callee::Operand(local("fp", ptr())), arguments: vec![], dest: None };
    assert_eq!(
        kind_of(CallCompiler::new(&through_local, &types, &config).compile_call()),
        ErrorKind::IndirectCallUnsupported
    );
    let through_constant = Call { function: Callee::Operand(cint(4)), arguments: vec![], dest: None };
    assert_eq!(
        kind_of(CallCompiler::new(&through_constant, &types, &config).compile_call()),
        ErrorKind::NonGlobalCallee
    );
    let not_a_function = call("g", int_ty(32), vec![], Some("d"));
    assert_eq!(
        kind_of(CallCompiler::new(&not_a_function, &types, &config).compile_call()),
        ErrorKind::NonGlobalCallee
    );
    let meta = call("f", func_ty(Type::VoidType, vec![]), vec![Operand::MetadataOperand], None);
    assert_eq!(
        kind_of(CallCompiler::new(&meta, &types, &config).compile_call()),
        ErrorKind::UnsupportedOperand
    );
}

#[test]
fn callee_name_and_arguments_alone() {
    let types = no_types();
    let config = Config::default();
    let c = call(
        "lib.f$1",
        func_ty(Type::VoidType, vec![]),
        vec![local("s", strukt(vec![int_ty(8), int_ty(8)])), cint(4)],
        None,
    );
    assert_eq!(build_call_function_name(&c).unwrap().0, "lib_f_1");
    assert_eq!(
        render_values(&build_call_function_args(&types, &config, &c).unwrap()),
        vec!["s_0", "s_1", "4"]
    );
    let inline = Call { function: Callee::InlineAssembly, arguments: vec![], dest: None };
    assert_eq!(kind_of(build_call_function_name(&inline)), ErrorKind::IndirectCallUnsupported);
    let constant = Call { function: Callee::Operand(cint(1)), arguments: vec![], dest: None };
    assert_eq!(kind_of(build_call_function_name(&constant)), ErrorKind::NonGlobalCallee);
}

#[test]
fn addresses_of_globals_as_arguments() {
    let types = no_types();
    let config = Config::default();
    let c = call(
        "f",
        func_ty(Type::VoidType, vec![]),
        vec![gref("unit", strukt(vec![])), gref("callee.1", func_ty(Type::VoidType, vec![]))],
        None,
    );
    let stmt = CallCompiler::new(&c, &types, &config).compile_call().unwrap();
    assert_eq!(render(vec![stmt]), "f(0, \"callee_1\")\n");
    let c = call("__yul_mload", func_ty(int_ty(32), vec![]), vec![gref("unit", strukt(vec![]))], Some("v"));
    let stmt = CallCompiler::new(&c, &types, &config).compile_call().unwrap();
    assert_eq!(render(vec![stmt]), "let v := mload(0)\n");
    let c = call("f", func_ty(Type::VoidType, vec![]), vec![gref("pair", strukt(vec![int_ty(8)]))], None);
    let e = CallCompiler::new(&c, &types, &config).compile_call().unwrap_err();
    assert_eq!(e.kind, ErrorKind::WrongArgument);
    assert_eq!(e.subject, "pair");
    let c = call("f", func_ty(Type::VoidType, vec![]), vec![gref("counter", int_ty(32))], None);
    let e = CallCompiler::new(&c, &types, &config).compile_call().unwrap_err();
    assert_eq!(e.kind, ErrorKind::UnsupportedOperand);
    assert_eq!(e.subject, "counter");
}

#[test]
fn object_embedding_calls_name_their_object() {
    let types = no_types();
    let config = Config::default();
    let target = gref("_deployed.entry", func_ty(Type::VoidType, vec![]));
    let again = gref("_deployed.entry", func_ty(Type::VoidType, vec![]));
    let c = call("__yul_datasize", func_ty(int_ty(32), vec![]), vec![again], Some("size"));
    let mut compiler = CallCompiler::new(&c, &types, &config);
    let stmt = compiler.compile_call().unwrap();
    assert_eq!(render(vec![stmt]), "let size := __yul_datasize(\"_deployed_entry\")\n");
    assert_eq!(compiler.object.as_deref(), Some("_deployed_entry"));
    let c = call("__yul_dataoffset", func_ty(int_ty(32), vec![]), vec![target], Some("at"));
    let mut compiler = CallCompiler::new(&c, &types, &config);
    compiler.compile_call().unwrap();
    assert_eq!(compiler.object.as_deref(), Some("_deployed_entry"));
    let c = call("__yul_datasize", func_ty(int_ty(32), vec![]), vec![cint(1)], Some("size"));
    let mut compiler = CallCompiler::new(&c, &types, &config);
    let e = compiler.compile_call().unwrap_err();
    assert_eq!(e.kind, ErrorKind::WrongArgument);
    assert!(compiler.object.is_none());
}

#[test]
fn object_entry_and_builtin_conversion_on_calls() {
    let fc = FunctionCall {
        name: Ident::new("__yul_dataoffset").unwrap(),
        args: vec![Value::Literal(Literal::ascii("runtime").unwrap())],
    };
    assert_eq!(build_object_entry(&fc).unwrap().as_deref(), Some("runtime"));
    let mut add = FunctionCall {
        name: Ident::new("__yul_add").unwrap(),
        args: vec![
            Value::Literal(Literal::int_number(1).unwrap()),
            Value::Literal(Literal::int_number(2).unwrap()),
        ],
    };
    assert!(build_object_entry(&add).unwrap().is_none());
    convert_builtin(&mut add).unwrap();
    assert_eq!(add.name.0, "add");
    assert_eq!(add.args.len(), 2);
    let mut user = FunctionCall { name: Ident::new("helper").unwrap(), args: Vec::new() };
    convert_builtin(&mut user).unwrap();
    assert_eq!(user.name.0, "helper");
}

// The other instructions.

#[test]
fn alloca_of_ten_bytes() {
    let types = no_types();
    let config = Config::default();
    let inst = Alloca { allocated_type: int_ty(8), num_elements: cint(10), dest: name("buf") };
    let stmts = AllocaCompiler::new(&inst, &types, &config).compile().unwrap();
    assert_eq!(render(stmts), "let buf := __yul_allocate(10)\n");
    let inst = Alloca { allocated_type: array(int_ty(8), 10), num_elements: cint(1), dest: name("buf") };
    let stmts = AllocaCompiler::new(&inst, &types, &config).compile().unwrap();
    assert_eq!(render(stmts), "let buf := __yul_allocate(10)\n");
}

#[test]
fn alloca_of_four_words() {
    let types = no_types();
    let config = Config::default();
    let inst = Alloca { allocated_type: array(int_ty(256), 4), num_elements: cint(1), dest: name("w.0") };
    let stmts = AllocaCompiler::new(&inst, &types, &config).compile().unwrap();
    assert_eq!(render(stmts), "let w_0 := __yul_allocate(128)\n");
    let inst = Alloca { allocated_type: int_ty(256), num_elements: cint(4), dest: name("w") };
    let stmts = AllocaCompiler::new(&inst, &types, &config).compile().unwrap();
    assert_eq!(render(stmts), "let w := __yul_allocate(128)\n");
}

#[test]
fn alloca_errors() {
    let types = no_types();
    let config = Config::default();
    let dynamic =
        Alloca { allocated_type: int_ty(8), num_elements: local("n", int_ty(32)), dest: name("b") };
    let e = AllocaCompiler::new(&dynamic, &types, &config).compile().unwrap_err();
    assert_eq!(e.kind, ErrorKind::DynamicAllocaUnsupported);
    assert_eq!(e.subject, "n");
    let odd = Alloca {
        allocated_type: int_ty(8),
        num_elements: Operand::ConstantOperand(Constant::Null(ptr())),
        dest: name("b"),
    };
    assert_eq!(kind_of(AllocaCompiler::new(&odd, &types, &config).compile()), ErrorKind::WrongArgument);
    let meta =
        Alloca { allocated_type: int_ty(8), num_elements: Operand::MetadataOperand, dest: name("b") };
    assert_eq!(
        kind_of(AllocaCompiler::new(&meta, &types, &config).compile()),
        ErrorKind::DynamicAllocaUnsupported
    );
    let big = Alloca { allocated_type: int_ty(256), num_elements: cint(u64::MAX), dest: name("b") };
    assert_eq!(kind_of(AllocaCompiler::new(&big, &types, &config).compile()), ErrorKind::SizeOverflow);
    let untyped = Alloca {
        allocated_type: Type::Other { text: "x86_fp80".to_string() },
        num_elements: local("n", int_ty(32)),
        dest: name("b"),
    };
    assert_eq!(
        kind_of(AllocaCompiler::new(&untyped, &types, &config).compile()),
        ErrorKind::UnsupportedType
    );
}

#[test]
fn extract_value_reads_one_slot() {
    let pair = || strukt(vec![int_ty(8), int_ty(8)]);
    let first = ExtractValue { aggregate: local("agg.v", pair()), indices: vec![0], dest: name("x") };
    assert_eq!(render(ExtractValueCompiler::new(&first).compile().unwrap()), "let x := agg_v\n");
    let second = ExtractValue { aggregate: local("agg.v", pair()), indices: vec![1], dest: name("y$") };
    assert_eq!(render(ExtractValueCompiler::new(&second).compile().unwrap()), "let y_ := agg_v_1\n");
    let far = ExtractValue { aggregate: local("a", array(int_ty(8), 20)), indices: vec![17], dest: name("z") };
    assert_eq!(render(ExtractValueCompiler::new(&far).compile().unwrap()), "let z := a_17\n");
}

#[test]
fn extract_value_errors() {
    let pair = || strukt(vec![int_ty(8), strukt(vec![int_ty(8)])]);
    let deep = ExtractValue { aggregate: local("a", pair()), indices: vec![1, 0], dest: name("x") };
    assert_eq!(
        kind_of(ExtractValueCompiler::new(&deep).compile()),
        ErrorKind::MultiIndexUnsupported
    );
    let none = ExtractValue { aggregate: local("a", pair()), indices: vec![], dest: name("x") };
    assert_eq!(
        kind_of(ExtractValueCompiler::new(&none).compile()),
        ErrorKind::MultiIndexUnsupported
    );
    let scalar = ExtractValue { aggregate: local("a", int_ty(8)), indices: vec![0], dest: name("x") };
    assert_eq!(kind_of(ExtractValueCompiler::new(&scalar).compile()), ErrorKind::WrongArgument);
    let constant = ExtractValue { aggregate: cint(1), indices: vec![0], dest: name("x") };
    assert_eq!(kind_of(ExtractValueCompiler::new(&constant).compile()), ErrorKind::WrongArgument);
}

#[test]
fn select_declares_the_false_value_and_sets_the_true_one() {
    let s = Select {
        condition: local("c", int_ty(1)),
        true_value: local("t", int_ty(32)),
        false_value: cint(9),
        dest: name("d"),
    };
    assert_eq!(
        render(SelectCompiler::new(&s).compile().unwrap()),
        "let d := 9\nif c {\n  d := t\n}\n"
    );
    let s = Select {
        condition: local("c.1", int_ty(1)),
        true_value: cint(1),
        false_value: local("p", ptr()),
        dest: Name::Number(3),
    };
    assert_eq!(
        render(SelectCompiler::new(&s).compile().unwrap()),
        "let _l3 := p\nif c_1 {\n  _l3 := 1\n}\n"
    );
}

fn value_in(env: &std::collections::HashMap<String, u64>, v: &Value) -> u64 {
    match v {
        Value::Ident(i) => env[&i.0],
        Value::Literal(l) => l.as_number().unwrap(),
        Value::FunctionCall(c) => panic!("no calls here: {:?}", c),
    }
}

fn run(env: &mut std::collections::HashMap<String, u64>, stmts: &[Statement]) {
    for s in stmts {
        match s {
            Statement::VariableDeclare(d) => {
                let v = value_in(env, &d.value);
                env.insert(d.names[0].0.clone(), v);
            }
            Statement::Assignment(a) => {
                let v = value_in(env, &a.value);
                env.insert(a.names[0].0.clone(), v);
            }
            Statement::If(i) => {
                if value_in(env, &i.cond) != 0 {
                    run(env, &i.block.0);
                }
            }
            other => panic!("no such statement here: {:?}", other),
        }
    }
}

#[test]
fn select_selects() {
    let s = Select {
        condition: local("c", int_ty(1)),
        true_value: local("t", int_ty(32)),
        false_value: local("f", int_ty(32)),
        dest: name("d"),
    };
    let stmts = SelectCompiler::new(&s).compile().unwrap();
    assert_eq!(stmts.len(), 2);
    for (c, want) in [(0u64, 22u64), (1, 11)] {
        let mut env = std::collections::HashMap::new();
        env.insert("c".to_string(), c);
        env.insert("t".to_string(), 11);
        env.insert("f".to_string(), 22);
        run(&mut env, &stmts);
        assert_eq!(env["d"], want);
        assert_eq!(env["t"], 11);
        assert_eq!(env["f"], 22);
    }
    let s = Select {
        condition: local("c", int_ty(1)),
        true_value: cint(5),
        false_value: cint(6),
        dest: name("d"),
    };
    let stmts = SelectCompiler::new(&s).compile().unwrap();
    for (c, want) in [(0u64, 6u64), (1, 5)] {
        let mut env = std::collections::HashMap::new();
        env.insert("c".to_string(), c);
        run(&mut env, &stmts);
        assert_eq!(env["d"], want);
    }
}

#[test]
fn select_errors() {
    let wide = Select {
        condition: local("c", int_ty(8)),
        true_value: cint(1),
        false_value: cint(0),
        dest: name("d"),
    };
    assert_eq!(kind_of(SelectCompiler::new(&wide).compile()), ErrorKind::InvalidSelectCondition);
    let constant = Select {
        condition: cint(1),
        true_value: cint(1),
        false_value: cint(0),
        dest: name("d"),
    };
    assert_eq!(kind_of(SelectCompiler::new(&constant).compile()), ErrorKind::InvalidSelectCondition);
    let aggregate = Select {
        condition: local("c", int_ty(1)),
        true_value: local("t", strukt(vec![int_ty(8)])),
        false_value: cint(0),
        dest: name("d"),
    };
    assert_eq!(kind_of(SelectCompiler::new(&aggregate).compile()), ErrorKind::UnsupportedOperand);
}

#[test]
fn pointer_casts_bind_the_operand() {
    let op = local("p.0", ptr());
    let dest = name("i");
    assert_eq!(render(PtrIntCompiler::new(&op, &dest).compile().unwrap()), "let i := p_0\n");
    let op = cint(64);
    assert_eq!(render(PtrIntCompiler::new(&op, &dest).compile().unwrap()), "let i := 64\n");
    let op = Operand::ConstantOperand(Constant::Null(ptr()));
    assert_eq!(render(PtrIntCompiler::new(&op, &dest).compile().unwrap()), "let i := 0\n");
    let op = Operand::ConstantOperand(Constant::Undef(ptr()));
    assert_eq!(kind_of(PtrIntCompiler::new(&op, &dest).compile()), ErrorKind::UnsupportedOperand);
}

#[test]
fn insert_value_lowers_to_nothing() {
    let inst = InsertValue {
        aggregate: local("a", strukt(vec![int_ty(8)])),
        element: cint(1),
        indices: vec![0],
        dest: name("b"),
    };
    assert!(InsertValueCompiler::new(&inst).compile().unwrap().is_empty());
}

// Blocks.

#[test]
fn block_lowers_its_instructions_in_order() {
    let types = no_types();
    let config = Config::default();
    let target = || gref("_rt", func_ty(Type::VoidType, vec![]));
    let bb = block(
        "start",
        vec![
            Instruction::Alloca(Alloca { allocated_type: int_ty(64), num_elements: cint(2), dest: name("m") }),
            Instruction::Phi(Phi { incoming_values: vec![Incoming { value: cint(1), block: name("b") }], dest: name("ph"), to_type: int_ty(8) }),
            Instruction::Call(call("__yul_datasize", func_ty(int_ty(32), vec![]), vec![target()], Some("n"))),
            Instruction::Call(call("__yul_dataoffset", func_ty(int_ty(32), vec![]), vec![target()], Some("o"))),
            Instruction::IntToPtr(IntToPtr { operand: local("n", int_ty(32)), to_type: ptr(), dest: name("q") }),
            Instruction::PtrToInt(PtrToInt { operand: local("q", ptr()), to_type: int_ty(32), dest: name("r") }),
            Instruction::InsertValue(InsertValue { aggregate: local("a", strukt(vec![int_ty(8)])), element: cint(1), indices: vec![0], dest: name("b") }),
        ],
        ret_void(),
    );
    let mut compiler = BlockCompiler::new(&bb, &types, &config);
    let stmts = compiler.compile().unwrap();
    assert_eq!(
        render(stmts),
        "let m := __yul_allocate(64)\nlet n := __yul_datasize(\"_rt\")\nlet o := __yul_dataoffset(\"_rt\")\nlet q := n\nlet r := q\n"
    );
    assert_eq!(compiler.objects, vec!["_rt"]);
}

#[test]
fn block_refuses_other_instructions() {
    let types = no_types();
    let config = Config::default();
    let bb = block(
        "start",
        vec![Instruction::Other { text: "%x = add i32 %a, %b".to_string() }],
        ret_void(),
    );
    let mut compiler = BlockCompiler::new(&bb, &types, &config);
    let e = compiler.compile().unwrap_err();
    assert_eq!(e.kind, ErrorKind::UnsupportedInstruction);
    assert_eq!(e.subject, "%x = add i32 %a, %b");
    let e = compiler.compile_inst(&bb.instrs[0]).unwrap_err();
    assert_eq!(e.kind, ErrorKind::UnsupportedInstruction);
    let ok = Instruction::PtrToInt(PtrToInt { operand: cint(1), to_type: int_ty(32), dest: name("r") });
    assert_eq!(render(compiler.compile_inst(&ok).unwrap()), "let r := 1\n");
}

// Terminators and control flow.

#[test]
fn return_of_a_struct_sets_each_slot() {
    let types = no_types();
    let config = Config::default();
    let pair = strukt(vec![int_ty(8), int_ty(64)]);
    let ret = Ret { return_operand: Some(local("v.0", strukt(vec![int_ty(8), int_ty(64)]))) };
    let stmts = compile_return_value(&types, &config, &pair, &ret).unwrap();
    assert_eq!(stmts.len(), 3);
    assert_eq!(render(stmts), "__yn_return_0 := v_0_0\n__yn_return_1 := v_0_1\nleave\n");
}

#[test]
fn return_of_nothing_only_leaves() {
    let types = no_types();
    let config = Config::default();
    let ret = Ret { return_operand: None };
    let stmts = compile_return_value(&types, &config, &Type::VoidType, &ret).unwrap();
    assert_eq!(render(stmts), "leave\n");
}

#[test]
fn return_of_constants_and_scalars() {
    let types = no_types();
    let config = Config::default();
    let ret = Ret { return_operand: Some(cint(5)) };
    let stmts = compile_return_value(&types, &config, &int_ty(32), &ret).unwrap();
    assert_eq!(render(stmts), "__yn_return := 5\nleave\n");
    let ret = Ret { return_operand: Some(local("x", int_ty(32))) };
    let stmts = compile_return_value(&types, &config, &int_ty(32), &ret).unwrap();
    assert_eq!(render(stmts), "__yn_return := x\nleave\n");
    let ret = Ret { return_operand: Some(local("x", int_ty(32))) };
    assert_eq!(
        kind_of(compile_return_value(&types, &config, &strukt(vec![int_ty(8), int_ty(8)]), &ret)),
        ErrorKind::WrongArgument
    );
    let ret = Ret { return_operand: Some(Operand::MetadataOperand) };
    assert_eq!(
        kind_of(compile_return_value(&types, &config, &int_ty(32), &ret)),
        ErrorKind::UnsupportedOperand
    );
}

fn marker(label: &str) -> Vec<Statement> {
    vec![Statement::FunctionCall(FunctionCall::new(Ident::new(label).unwrap()))]
}

#[test]
fn branches_are_followed_by_their_targets() {
    let types = no_types();
    let config = Config::default();
    let blocks = vec![
        block("a", vec![], Terminator::Br(Br { dest: name("b") })),
        block("b", vec![], Terminator::Br(Br { dest: name("c") })),
        block("c", vec![], ret_void()),
    ];
    let compiled = vec![marker("in_a"), marker("in_b"), marker("in_c")];
    let body =
        build_control_block_from_entry(&types, &config, &Type::VoidType, &blocks, &compiled, &name("a"))
            .unwrap();
    assert_eq!(render(body), "in_a()\nin_b()\nin_c()\nleave\n");
    let body =
        build_control_block_from_entry(&types, &config, &Type::VoidType, &blocks, &compiled, &name("b"))
            .unwrap();
    assert_eq!(render(body), "in_b()\nin_c()\nleave\n");
}

#[test]
fn conditional_branch_is_a_switch_over_the_condition() {
    let types = no_types();
    let config = Config::default();
    let blocks = vec![
        block(
            "a",
            vec![],
            Terminator::CondBr(CondBr {
                condition: local("c", int_ty(1)),
                true_dest: name("yes"),
                false_dest: name("no"),
            }),
        ),
        block("yes", vec![], ret_void()),
        block("no", vec![], Terminator::Unreachable),
    ];
    let compiled = vec![marker("in_a"), marker("in_yes"), marker("in_no")];
    let body =
        build_control_block_from_entry(&types, &config, &Type::VoidType, &blocks, &compiled, &name("a"))
            .unwrap();
    assert_eq!(
        render(body),
        "in_a()\nswitch c\ncase 0 {\n  in_no()\n  invalid()\n}default {\n  in_yes()\n  leave\n}\n"
    );
}

#[test]
fn switch_has_a_case_for_each_destination() {
    let types = no_types();
    let config = Config::default();
    let blocks = vec![
        block(
            "a",
            vec![],
            Terminator::Switch(Switch {
                operand: local("k", int_ty(32)),
                dests: vec![
                    SwitchDest { value: Constant::Int { bits: 32, value: 1 }, dest: name("one") },
                    SwitchDest { value: Constant::Int { bits: 32, value: 7 }, dest: name("end") },
                ],
                default_dest: name("end"),
            }),
        ),
        block("one", vec![], Terminator::Br(Br { dest: name("end") })),
        block("end", vec![], ret_void()),
    ];
    let compiled = vec![Vec::new(), marker("in_one"), marker("in_end")];
    let body =
        build_control_block_from_entry(&types, &config, &Type::VoidType, &blocks, &compiled, &name("a"))
            .unwrap();
    assert_eq!(
        render(body),
        "switch k\ncase 1 {\n  in_one()\n  in_end()\n  leave\n}case 7 {\n  in_end()\n  leave\n}default {\n  in_end()\n  leave\n}\n"
    );
}

#[test]
fn control_flow_errors() {
    let types = no_types();
    let config = Config::default();
    let looping = vec![
        block("a", vec![], Terminator::Br(Br { dest: name("b") })),
        block("b", vec![], Terminator::Br(Br { dest: name("a") })),
    ];
    let compiled = vec![Vec::new(), Vec::new()];
    let e = build_control_block_from_entry(
        &types,
        &config,
        &Type::VoidType,
        &looping,
        &compiled,
        &name("a"),
    )
    .unwrap_err();
    assert_eq!(e.kind, ErrorKind::CyclicControlFlow);
    let dangling = vec![block("a", vec![], Terminator::Br(Br { dest: name("gone") }))];
    let compiled = vec![Vec::new()];
    let e = build_control_block_from_entry(
        &types,
        &config,
        &Type::VoidType,
        &dangling,
        &compiled,
        &name("a"),
    )
    .unwrap_err();
    assert_eq!(e.kind, ErrorKind::MissingBasicBlock);
    assert_eq!(e.subject, "gone");
    assert_eq!(
        kind_of(build_control_block_from_entry(
            &types,
            &config,
            &Type::VoidType,
            &dangling,
            &compiled,
            &name("nowhere"),
        )),
        ErrorKind::MissingBasicBlock
    );
    let odd = vec![block("a", vec![], Terminator::Other { text: "invoke".to_string() })];
    let e = build_control_block_from_entry(
        &types,
        &config,
        &Type::VoidType,
        &odd,
        &compiled,
        &name("a"),
    )
    .unwrap_err();
    assert_eq!(e.kind, ErrorKind::UnsupportedTerminator);
    assert_eq!(e.subject, "invoke");
    let bad_case = vec![
        block(
            "a",
            vec![],
            Terminator::Switch(Switch {
                operand: local("k", int_ty(32)),
                dests: vec![SwitchDest { value: Constant::Null(ptr()), dest: name("a") }],
                default_dest: name("a"),
            }),
        ),
    ];
    assert_eq!(
        kind_of(build_control_block_from_entry(
            &types,
            &config,
            &Type::VoidType,
            &bad_case,
            &compiled,
            &name("a"),
        )),
        ErrorKind::UnsupportedOperand
    );
}

// Functions and objects.

#[test]
fn function_header_has_the_flat_signature() {
    let types = no_types();
    let config = Config::default();
    let f = Function {
        name: "pair.sum".to_string(),
        parameters: vec![
            Parameter { name: name("p"), ty: strukt(vec![int_ty(8), int_ty(8)]) },
            Parameter { name: Name::Number(1), ty: int_ty(64) },
        ],
        return_type: strukt(vec![int_ty(64), int_ty(64)]),
        basic_blocks: vec![block(
            "entry",
            vec![],
            Terminator::Ret(Ret { return_operand: Some(local("r", strukt(vec![int_ty(64), int_ty(64)]))) }),
        )],
    };
    let mut compiler = FunctionCompiler::new(&f, &types, &config).unwrap();
    compiler.compile_function_header().unwrap();
    assert_eq!(compiler.func.name.0, "pair_sum");
    assert_eq!(names(&compiler.func.args), vec!["p_0", "p_1", "_l1"]);
    assert_eq!(names(&compiler.func.rets), vec!["__yn_return_0", "__yn_return_1"]);
    let (def, objects) = compiler.compile_function_body(&name("entry")).unwrap();
    assert!(objects.is_empty());
    assert_eq!(
        render(vec![Statement::FunctionDefinition(def)]),
        "function pair_sum(p_0, p_1, _l1) ->__yn_return_0, __yn_return_1 {\n  __yn_return_0 := r_0\n  __yn_return_1 := r_1\n  leave\n}\n\n"
    );
}

#[test]
fn function_with_a_void_parameter_is_refused() {
    let types = no_types();
    let config = Config::default();
    let f = Function {
        name: "f".to_string(),
        parameters: vec![Parameter { name: name("v"), ty: Type::VoidType }],
        return_type: Type::VoidType,
        basic_blocks: vec![block("entry", vec![], ret_void())],
    };
    assert_eq!(kind_of(compile_function(&f, &types, &config, &name("entry"))), ErrorKind::UnsupportedVoid);
}

fn stop_module() -> (Module, ModuleAnalysis) {
    let entry = function(
        "_entry",
        vec![block(
            "start",
            vec![Instruction::Call(call("__yul_stop", func_ty(Type::VoidType, vec![]), vec![], None))],
            ret_void(),
        )],
    );
    let module = Module { functions: vec![entry], types: no_types() };
    let analysis = analysis(vec![("_entry", vec!["__yul_stop"])], vec![("_entry", "start")]);
    (module, analysis)
}

fn render_object(o: &Object) -> String {
    let mut w = Writer::new(Vec::new(), "    ");
    o.write(&mut w).unwrap();
    String::from_utf8(w.w).unwrap()
}

#[test]
fn end_to_end_entry_that_stops() {
    let (module, analysis) = stop_module();
    let mut compiler = Compiler::new(Config::default());
    let object = compiler.compile_object(&module, &analysis, "_entry").unwrap();
    assert_eq!(object.name.0, "_entry");
    assert!(object.objects.is_empty());
    assert!(object.data.is_empty());
    assert_eq!(object.code.0.len(), 2);
    match &object.code.0[0] {
        Statement::FunctionDefinition(def) => {
            assert_eq!(def.name.0, "_entry");
            assert!(def.args.is_empty());
            assert!(def.rets.is_empty());
            assert_eq!(render(def.block.0.clone()), "stop()\nleave\n");
        }
        other => panic!("expected a function definition, got {:?}", other),
    }
    match &object.code.0[1] {
        Statement::FunctionCall(c) => {
            assert_eq!(c.name.0, "_entry");
            assert!(c.args.is_empty());
        }
        other => panic!("expected the call of the entry, got {:?}", other),
    }
    assert_eq!(
        render_object(&object),
        "object \"_entry\" {\n    code {\n        function _entry() {\n            stop()\n            leave\n        }\n\n        _entry()\n    }\n\n}"
    );
}

#[test]
fn compiling_twice_gives_the_same_object() {
    let (module, analysis) = stop_module();
    let mut compiler = Compiler::new(Config::default());
    let first = compiler.compile_object(&module, &analysis, "_entry").unwrap();
    assert_eq!(compiler.func_caches.len(), 1);
    assert_eq!(compiler.objects_caches.len(), 1);
    let second = compiler.compile_object(&module, &analysis, "_entry").unwrap();
    assert_eq!(render_object(&first), render_object(&second));
    assert_eq!(compiler.func_caches.len(), 1);
    assert_eq!(compiler.objects_caches.len(), 1);
}

fn deploy_module(runtime_calls_helper: bool) -> (Module, ModuleAnalysis) {
    let runtime = gref("_runtime", func_ty(Type::VoidType, vec![]));
    let helper = function(
        "helper",
        vec![block(
            "b",
            vec![Instruction::Call(call("__yul_datasize", func_ty(int_ty(32), vec![]), vec![runtime], Some("n")))],
            ret_void(),
        )],
    );
    let unused = function("unused", vec![block("b", vec![], ret_void())]);
    let ctor = function(
        "_ctor",
        vec![block(
            "b",
            vec![Instruction::Call(call("helper", func_ty(Type::VoidType, vec![]), vec![], None))],
            ret_void(),
        )],
    );
    let in_runtime = if runtime_calls_helper {
        vec![Instruction::Call(call("helper", func_ty(Type::VoidType, vec![]), vec![], None))]
    } else {
        Vec::new()
    };
    let rt = function("_runtime", vec![block("b", in_runtime, Terminator::Unreachable)]);
    let module = Module { functions: vec![helper, unused, ctor, rt], types: no_types() };
    let analysis = analysis(
        vec![
            ("_ctor", vec!["helper"]),
            ("_runtime", if runtime_calls_helper { vec!["helper"] } else { Vec::new() }),
            ("helper", vec!["__yul_datasize"]),
            ("unused", vec![]),
        ],
        vec![("helper", "b"), ("unused", "b"), ("_ctor", "b"), ("_runtime", "b")],
    );
    (module, analysis)
}

#[test]
fn object_holds_what_is_reached_and_nests_what_is_embedded() {
    let (module, analysis) = deploy_module(true);
    let mut compiler = Compiler::new(Config::default());
    let e = compiler.compile_object(&module, &analysis, "_ctor").unwrap_err();
    assert_eq!(e.kind, ErrorKind::CyclicObject);
    let (module, analysis) = deploy_module(false);
    let mut compiler = Compiler::new(Config::default());
    let object = compiler.compile_object(&module, &analysis, "_ctor").unwrap();
    let defined: Vec<String> = object
        .code
        .0
        .iter()
        .filter_map(|s| match s {
            Statement::FunctionDefinition(d) => Some(d.name.0.clone()),
            _ => None,
        })
        .collect();
    assert_eq!(defined, vec!["helper", "_ctor"]);
    assert_eq!(object.objects.len(), 1);
    assert_eq!(object.objects[0].name.0, "_runtime");
    assert!(object.objects[0].objects.is_empty());
    assert_eq!(
        render(object.objects[0].code.0.clone()),
        "function _runtime() {\n  invalid()\n}\n\n_runtime()\n"
    );
    assert_eq!(compiler.func_caches.len(), 3);
}

#[test]
fn object_errors() {
    let (module, mut analysis) = stop_module();
    analysis.entries.clear();
    let mut compiler = Compiler::new(Config::default());
    let e = compiler.compile_object(&module, &analysis, "_entry").unwrap_err();
    assert_eq!(e.kind, ErrorKind::MissingBasicBlock);
    assert_eq!(e.subject, "_entry");
    let (mut module, analysis) = stop_module();
    let (mut other, _) = stop_module();
    module.functions.push(other.functions.remove(0));
    let mut compiler = Compiler::new(Config::default());
    assert_eq!(
        kind_of(compiler.compile_object(&module, &analysis, "_entry")),
        ErrorKind::DuplicateFunction
    );
}

#[test]
fn several_entries_share_one_compiler() {
    let (module, analysis) = deploy_module(false);
    let entries = vec!["_runtime".to_string(), "_ctor".to_string(), "_runtime".to_string()];
    let objects = compile_entries(Config::default(), &module, &analysis, &entries).unwrap();
    assert_eq!(objects.len(), 3);
    assert_eq!(objects[0].name.0, "_runtime");
    assert_eq!(objects[1].name.0, "_ctor");
    assert_eq!(render_object(&objects[0]), render_object(&objects[2]));
    assert_eq!(render_object(&objects[0]), render_object(&objects[1].objects[0]));
    let mut alone = Compiler::new(Config::default());
    let ctor = alone.compile_object(&module, &analysis, "_ctor").unwrap();
    assert_eq!(render_object(&ctor), render_object(&objects[1]));
    let (module, analysis) = deploy_module(true);
    let e = compile_entries(Config::default(), &module, &analysis, &entries).unwrap_err();
    assert_eq!(e.kind, ErrorKind::CyclicObject);
    assert!(compile_entries(Config::default(), &module, &analysis, &Vec::new()).unwrap().is_empty());
}

#[test]
fn blocks_without_their_statements_are_missing() {
    let types = no_types();
    let config = Config::default();
    let blocks = vec![block("a", vec![], ret_void())];
    let e = build_control_block_from_entry(
        &types,
        &config,
        &Type::VoidType,
        &blocks,
        &Vec::new(),
        &name("a"),
    )
    .unwrap_err();
    assert_eq!(e.kind, ErrorKind::MissingBasicBlock);
}

#[test]
fn object_of_an_unknown_entry_only_calls_it() {
    let (module, analysis) = stop_module();
    let mut compiler = Compiler::new(Config::default());
    let object = compiler.compile_object(&module, &analysis, "no.such").unwrap();
    assert_eq!(object.name.0, "no.such");
    assert_eq!(render(object.code.0.clone()), "no_such()\n");
}
