use llvm2yul::yuler::error::YulError;
use llvm2yul::yuler::ident::Ident;
use llvm2yul::yuler::literal::{HexLiteral, Literal};
use llvm2yul::yuler::statement::{Block, If, Statement};
use llvm2yul::yuler::value::{FunctionCall, Value};
use llvm2yul::yuler::variable::{Assignment, VariableDeclare};
use llvm2yul::yuler::writer::Writer;

fn build_fc() -> Result<FunctionCall, YulError> {
    let v0 = Value::Literal(Literal::hex_number("0x1").unwrap());
    let v1 = Value::Literal(Literal::hex_number("0x2").unwrap());
    let v2 = Value::Literal(Literal::hex_number("0x3").unwrap());
    let v3 = Value::Literal(Literal::hex_number("0x4").unwrap());

    let fc = FunctionCall {
        name: Ident::new("_test").unwrap(),
        args: vec![v0.clone(), v1, v2, v3],
    };

    Ok(fc)
}

fn build_vd() -> Result<VariableDeclare, YulError> {
    let ident = Ident::new("a")?;

    let value = FunctionCall {
        name: ident.clone(),
        args: Vec::new(),
    };

    Ok(VariableDeclare {
        names: vec![ident.clone(), ident.clone()],
        value: value.into(),
    })
}

fn build_as() -> Result<Assignment, YulError> {
    let ident = Ident::new("a").unwrap();

    let value = FunctionCall {
        name: ident.clone(),
        args: Vec::new(),
    };

    let vd = Assignment {
        names: vec![ident.clone(), ident.clone()],
        value: value.into(),
    };

    Ok(vd)
}

fn build_block() -> Result<Block, YulError> {
    let vd: Statement = build_vd()?.into();
    let ass: Statement = build_as()?.into();
    let fc: Statement = build_fc()?.into();

    let block = Block(vec![vd, ass, fc]);

    Ok(block)
}

fn build_if() -> Result<If, YulError> {
    let cond: Value = build_fc()?.into();
    let block = build_block()?;

    Ok(If { cond, block })
}

#[test]
fn test_number() {
    let number = Literal::int_number(123).unwrap();

    let mut res = Vec::new();

    number.write(&mut res).unwrap();

    assert_eq!(res, b"123");
}

#[test]
fn test_int_number() {
    let number = Literal::hex_number("0x123").unwrap();

    let mut res = Vec::new();

    number.write(&mut res).unwrap();

    assert_eq!(res, b"0x123");
}

#[test]
fn test_ascii() {
    let number = Literal::ascii("abcd").unwrap();

    let mut res = Vec::new();

    number.write(&mut res).unwrap();

    assert_eq!(res, b"\"abcd\"");
}

#[test]
fn test_hex() {
    let number = HexLiteral::new("abcd").unwrap();

    let mut res = Vec::new();

    number.write(&mut res).unwrap();

    assert_eq!(res, b"hex\"abcd\"");
}

#[test]
fn test_cd_block() {
    let iff: Statement = build_if().unwrap().into();

    let block = Block(vec![iff]);

    let mut res = Writer::new(Vec::new(), "    ");
    block.write(&mut res).unwrap();

    let res = String::from_utf8(res.w).unwrap();
    println!("{}", res);

    assert_eq!(
        res,
        "{\n    if _test(0x1, 0x2, 0x3, 0x4) {\n        let a, a := a()\n        a, a := a()\n        _test(0x1, 0x2, 0x3, 0x4)\n    }\n}"
    );
}

#[test]
fn test_function_call() {
    let v0 = Value::Literal(Literal::hex_number("0x1").unwrap());
    let v1 = Value::Literal(Literal::hex_number("0x2").unwrap());
    let v2 = Value::Literal(Literal::hex_number("0x3").unwrap());
    let v3 = Value::Literal(Literal::hex_number("0x4").unwrap());

    let fc = FunctionCall {
        name: Ident::new("_test").unwrap(),
        args: vec![v0.clone(), v1, v2, v3],
    };

    let mut res = Writer::new(Vec::new(), "    ");

    let fc = FunctionCall {
        name: Ident::new("_test").unwrap(),
        args: vec![v0, Value::FunctionCall(fc)],
    };

    fc.write(&mut res).unwrap();

    assert_eq!(res.w, b"_test(0x1, _test(0x1, 0x2, 0x3, 0x4))")
}

#[test]
fn test_vd() {
    let vd = build_vd().unwrap();

    let mut res = Writer::new(Vec::new(), "    ");
    vd.write(&mut res).unwrap();

    assert_eq!(res.w, b"let a, a := a()")
}

#[test]
fn test_as() {
    let vd = build_as().unwrap();

    let mut res = Writer::new(Vec::new(), "    ");
    vd.write(&mut res).unwrap();

    assert_eq!(res.w, b"a, a := a()")
}
