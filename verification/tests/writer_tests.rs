use llvm2yul::cli::{split_entry, Args, LLVMIRType, Version};
use llvm2yul::config::Config;
use llvm2yul::error::{CompileError, ErrorKind};
use llvm2yul::yuler::error::YulError;
use llvm2yul::yuler::ident::Ident;
use llvm2yul::yuler::literal::{check_hex_number, check_hex_text, HexLiteral, Literal};
use llvm2yul::yuler::object::{Data, Object};
use llvm2yul::yuler::statement::{
    Block, CaseBlock, ForLoop, FunctionDefinition, If, InlineBlock, Statement, Switch,
};
use llvm2yul::yuler::value::{FunctionCall, Value};
use llvm2yul::yuler::variable::{Assignment, VariableDeclare};
use llvm2yul::yuler::writer::Writer;
use regex::Regex;

fn ident(s: &str) -> Ident {
    Ident::new(s).unwrap()
}

fn num(n: u64) -> Value {
    Value::Literal(Literal::int_number(n).unwrap())
}

fn var(s: &str) -> Value {
    Value::Ident(ident(s))
}

fn call(name: &str, args: Vec<Value>) -> FunctionCall {
    FunctionCall { name: ident(name), args }
}

fn declare(name: &str, value: Value) -> Statement {
    Statement::VariableDeclare(VariableDeclare { names: vec![ident(name)], value })
}

fn assign(name: &str, value: Value) -> Statement {
    Statement::Assignment(Assignment { names: vec![ident(name)], value })
}

fn text(w: Writer) -> String {
    String::from_utf8(w.w).unwrap()
}

fn written(s: &Statement) -> String {
    let mut w = Writer::new(Vec::new(), "  ");
    s.write(&mut w).unwrap();
    text(w)
}

#[test]
fn writer_indents_at_the_start_of_a_line() {
    let mut w = Writer::new(b"x".to_vec(), "\t");
    w.write_str("a").unwrap();
    w.enter_block().unwrap();
    w.enter_block().unwrap();
    w.write_str("b").unwrap();
    w.write_end().unwrap();
    w.write_str("c").unwrap();
    w.write_str("d").unwrap();
    w.write_end().unwrap();
    w.leave_block();
    w.write_str("e").unwrap();
    w.write_raw(b"!");
    assert_eq!(text(w), "xab\n\t\tcd\n\te!");
}

#[test]
fn writer_refuses_to_count_past_its_limit() {
    let mut w = Writer { w: Vec::new(), step: usize::MAX, tab: String::new(), begin_line: false };
    assert_eq!(w.enter_block(), Err(YulError::NestingTooDeep));
    assert_eq!(w.step, usize::MAX);
    let block = Block(vec![Statement::Leave]);
    assert_eq!(block.write(&mut w), Err(YulError::NestingTooDeep));
    let stmt = Statement::If(If { cond: num(1), block: Block(Vec::new()) });
    assert_eq!(stmt.write(&mut w), Err(YulError::NestingTooDeep));
    assert_eq!(Statement::Leave.write(&mut w), Ok(()));
    let object = Object::new(ident("o"));
    assert_eq!(object.write(&mut w), Err(YulError::NestingTooDeep));
    assert_eq!(YulError::NestingTooDeep.message(), "Blocks are nested too deeply");
}

#[test]
fn identifiers_are_written_bare_and_quoted() {
    let mut w = Writer::new(Vec::new(), "  ");
    ident("plain").write(&mut w).unwrap();
    w.write_str(" ").unwrap();
    ident("quoted").write_qoute(&mut w).unwrap();
    assert_eq!(text(w), "plain \"quoted\"");
}

#[test]
fn literal_accessors() {
    assert_eq!(Literal::int_number(5).unwrap().as_number(), Some(5));
    assert_eq!(Literal::int_number(5).unwrap().as_ascii(), None);
    assert_eq!(Literal::ascii("s").unwrap().as_ascii(), Some("s"));
    assert_eq!(Literal::ascii("s").unwrap().as_number(), None);
    assert_eq!(Literal::hex_number("0xff").unwrap().as_number(), None);
    let mut out = Vec::new();
    Literal::int_number(u64::MAX).unwrap().write(&mut out).unwrap();
    assert_eq!(out, b"18446744073709551615");
    let mut out = Vec::new();
    Literal::int_number(0).unwrap().write(&mut out).unwrap();
    assert_eq!(out, b"0");
}

#[test]
fn hex_literals_that_are_refused() {
    for bad in ["", "0x", "123", "0X12", "0x12g", " 0x12", "0x12 ", "0x-1", "x12", "0x12\n"] {
        assert!(
            matches!(Literal::hex_number(bad), Err(YulError::WrongNumberFormat)),
            "{:?} was accepted",
            bad
        );
    }
    for bad in ["", "0x12", "12 ", "xyz", "ab-cd", "é"] {
        assert!(
            matches!(HexLiteral::new(bad), Err(YulError::WrongNumberFormat)),
            "{:?} was accepted",
            bad
        );
    }
    assert_eq!(YulError::WrongNumberFormat.message(), "Wrong format of number");
    assert_eq!(HexLiteral::new("00ffAA").unwrap().as_str(), "00ffAA");
}

#[test]
fn literal_grammars_agree_with_their_patterns() {
    let hex_text = Regex::new(r"^[0-9A-Fa-f]+$").unwrap();
    let hex_number = Regex::new(r"^0x[0-9A-Fa-f]+$").unwrap();
    let alphabet = ['0', '9', 'a', 'f', 'A', 'F', 'g', 'G', 'x', 'X', '-', ' ', '\n', '/', ':', '@', '`'];
    let mut samples: Vec<String> = vec![String::new()];
    for first in alphabet {
        samples.push(first.to_string());
        for second in alphabet {
            samples.push(format!("{first}{second}"));
            for third in alphabet {
                samples.push(format!("{first}{second}{third}"));
                samples.push(format!("0x{first}{second}{third}"));
            }
        }
    }
    for s in &samples {
        assert_eq!(check_hex_text(s), hex_text.is_match(s), "text {:?}", s);
        assert_eq!(check_hex_number(s), hex_number.is_match(s), "number {:?}", s);
        assert_eq!(HexLiteral::new(s).is_ok(), hex_text.is_match(s), "text {:?}", s);
        assert_eq!(Literal::hex_number(s).is_ok(), hex_number.is_match(s), "number {:?}", s);
    }
}

#[test]
fn simple_statements() {
    assert_eq!(written(&Statement::Break), "break");
    assert_eq!(written(&Statement::Continue), "continue");
    assert_eq!(written(&Statement::Leave), "leave");
    assert_eq!(written(&declare("x", num(1))), "let x := 1");
    assert_eq!(written(&assign("x", var("y"))), "x := y");
    assert_eq!(written(&Statement::FunctionCall(call("f", vec![]))), "f()");
    assert_eq!(
        written(&Statement::FunctionCall(call("f", vec![var("a"), num(2)]))),
        "f(a, 2)"
    );
    let no_names = Statement::VariableDeclare(VariableDeclare { names: vec![], value: num(1) });
    assert_eq!(written(&no_names), "let  := 1");
}

#[test]
fn blocks_indent_their_statements() {
    let inner = Block(vec![assign("x", num(2))]);
    let outer = Block(vec![
        declare("x", num(1)),
        Statement::If(If { cond: var("c"), block: inner }),
    ]);
    let mut w = Writer::new(Vec::new(), "  ");
    outer.write(&mut w).unwrap();
    assert_eq!(text(w), "{\n  let x := 1\n  if c {\n    x := 2\n  }\n}");
    let mut w = Writer::new(Vec::new(), "  ");
    Block(Vec::new()).write(&mut w).unwrap();
    assert_eq!(text(w), "{\n}");
    let mut w = Writer::new(Vec::new(), "  ");
    InlineBlock(vec![declare("i", num(0))]).write(&mut w).unwrap();
    assert_eq!(text(w), "{ let i := 0 }");
}

#[test]
fn switch_with_cases_and_default() {
    let sw = Switch {
        cond: var("k"),
        cases: vec![
            CaseBlock { cond: Literal::int_number(0).unwrap(), block: Block(vec![Statement::Leave]) },
            CaseBlock { cond: Literal::hex_number("0x1").unwrap(), block: Block(Vec::new()) },
        ],
        default: Some(Block(vec![Statement::Break])),
    };
    assert_eq!(
        written(&Statement::Switch(sw)),
        "switch k\ncase 0 {\n  leave\n}case 0x1 {\n}default {\n  break\n}"
    );
    let bare = Switch { cond: num(1), cases: Vec::new(), default: None };
    assert_eq!(written(&Statement::Switch(bare)), "switch 1\n");
}

#[test]
fn for_loop_is_written_on_one_head_line() {
    let fl = ForLoop {
        init: InlineBlock(vec![declare("i", num(0))]),
        cond: Value::FunctionCall(call("lt", vec![var("i"), num(10)])),
        incr: InlineBlock(vec![assign("i", Value::FunctionCall(call("add", vec![var("i"), num(1)])))]),
        block: Block(vec![Statement::Continue]),
    };
    assert_eq!(
        written(&Statement::ForLoop(fl)),
        "for { let i := 0 } lt(i, 10) { i := add(i, 1) } {\n  continue\n}"
    );
}

#[test]
fn function_definitions() {
    let mut def = FunctionDefinition::new(ident("f"));
    assert_eq!(written(&Statement::FunctionDefinition(def.clone())), "function f() {\n}\n");
    def.args = vec![ident("a"), ident("b")];
    def.rets = vec![ident("r")];
    def.block = Block(vec![assign("r", var("a")), Statement::Leave]);
    assert_eq!(
        written(&Statement::FunctionDefinition(def)),
        "function f(a, b) ->r {\n  r := a\n  leave\n}\n"
    );
}

#[test]
fn objects_with_data_and_nested_objects() {
    let mut inner = Object::new(ident("runtime"));
    inner.code = Block(vec![Statement::FunctionCall(call("stop", vec![]))]);
    let mut outer = Object::new(ident("deploy"));
    outer.code = Block(vec![Statement::Leave]);
    outer.data = vec![Data { name: ident("blob"), data: HexLiteral::new("c0ffee").unwrap() }];
    outer.objects = vec![inner];
    let mut w = Writer::new(Vec::new(), "  ");
    outer.write(&mut w).unwrap();
    assert_eq!(
        text(w),
        "object \"deploy\" {\n  code {\n    leave\n  }data \"blob\" hex\"c0ffee\"\n\n  object \"runtime\" {\n    code {\n      stop()\n    }\n\n  }\n}"
    );
}

#[test]
fn copies_are_written_alike() {
    let stmt = Statement::Switch(Switch {
        cond: Value::FunctionCall(call("f", vec![num(1), Value::Literal(Literal::ascii("s").unwrap())])),
        cases: vec![CaseBlock {
            cond: Literal::hex_number("0xab").unwrap(),
            block: Block(vec![Statement::ForLoop(ForLoop {
                init: InlineBlock(Vec::new()),
                cond: num(1),
                incr: InlineBlock(Vec::new()),
                block: Block(vec![Statement::Break]),
            })]),
        }],
        default: None,
    });
    assert_eq!(written(&stmt.clone()), written(&stmt));
}

#[test]
fn configuration_starts_with_six_basic_types() {
    let config = Config::default();
    assert_eq!(
        config.basic_types,
        vec![
            "patine_core::uint::U256",
            "patine_core::uint::U128",
            "patine_core::uint::U64",
            "patine_core::uint::U32",
            "patine_core::uint::U16",
            "patine_core::uint::U8",
        ]
    );
    assert!(config.contains("patine_core::uint::U64"));
    assert!(!config.contains("patine_core::uint::U512"));
}

#[test]
fn configuration_takes_each_basic_type_once() {
    let more = vec!["Mine".to_string(), "patine_core::uint::U8".to_string(), "Mine".to_string()];
    let config = Config::default().basic_types(&more);
    assert_eq!(config.basic_types.len(), 7);
    assert!(config.contains("Mine"));
    let mut config = config;
    config.insert("Mine");
    config.insert("Yours");
    assert_eq!(config.basic_types.len(), 8);
}

#[test]
fn contracts_split_at_the_equals_sign() {
    assert_eq!(split_entry("token").unwrap(), ("token", "token"));
    assert_eq!(split_entry("token=_entry").unwrap(), ("token", "_entry"));
    assert_eq!(split_entry("=x").unwrap(), ("", "x"));
    assert_eq!(split_entry("x=").unwrap(), ("x", ""));
    assert_eq!(split_entry("").unwrap(), ("", ""));
    assert_eq!(split_entry("né=ö").unwrap(), ("né", "ö"));
    let e = split_entry("a=b=c").unwrap_err();
    assert_eq!(e.kind, ErrorKind::MalformedContract);
    assert_eq!(e.subject, "a=b=c");
    assert_eq!(split_entry("==").unwrap_err().kind, ErrorKind::MalformedContract);
}

fn asked(symbols: Vec<&str>, contracts: Vec<&str>) -> Args {
    Args {
        solidity_path: "solc".to_string(),
        solidity_version: Some(Version::V0_8_25),
        basic_type_symbols: symbols.into_iter().map(|s| s.to_string()).collect(),
        output_contracts: contracts.into_iter().map(|s| s.to_string()).collect(),
        output_dir: "./target".to_string(),
        llvm_ir_type: LLVMIRType::TextIR,
        input: "in.ll".to_string(),
    }
}

#[test]
fn command_line_names_its_contracts() {
    let args = asked(vec![], vec!["token", "vault=_vault.entry", "=x"]);
    let contracts = args.contracts().unwrap();
    let got: Vec<(&str, &str)> =
        contracts.iter().map(|c| (c.file.as_str(), c.entry.as_str())).collect();
    assert_eq!(got, vec![("token.yul", "token"), ("vault.yul", "_vault.entry"), (".yul", "x")]);
    assert!(asked(vec![], vec![]).contracts().unwrap().is_empty());
    let e = asked(vec![], vec!["ok", "a=b=c", "also=ok"]).contracts().unwrap_err();
    assert_eq!(e.kind, ErrorKind::MalformedContract);
    assert_eq!(e.subject, "a=b=c");
}

#[test]
fn command_line_adds_its_basic_types() {
    let config = asked(vec!["my::Word", "patine_core::uint::U8", "my::Word"], vec![]).config();
    assert_eq!(config.basic_types.len(), 7);
    assert!(config.contains("my::Word"));
    assert!(config.contains("patine_core::uint::U256"));
    assert!(!config.contains("my::word"));
    assert_eq!(asked(vec![], vec![]).config().basic_types.len(), 6);
}

#[test]
fn input_kinds() {
    assert!(LLVMIRType::Bitcode.is_bitcode());
    assert!(!LLVMIRType::TextIR.is_bitcode());
    assert_ne!(Version::V0_8_24, Version::V0_8_25);
}

#[test]
fn error_messages_name_kind_and_subject() {
    let e = CompileError::new(ErrorKind::WrongArity, "__yul_add");
    assert_eq!(e.kind_name(), "WrongArity");
    assert_eq!(e.message(), "WrongArity: __yul_add");
    assert_eq!(CompileError::bare(ErrorKind::SizeOverflow).message(), "SizeOverflow: ");
    assert_eq!(CompileError::bare(ErrorKind::CyclicObject).kind_name(), "CyclicObject");
}
