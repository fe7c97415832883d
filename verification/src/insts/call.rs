use vstd::prelude::*;
use vstd::string::*;

use primitive_types::U256;

use crate::config::Config;
use crate::constant::{number, number_value, values_outcome};
use crate::error::{error_of, CompileError, ErrorKind, ErrorView};
use crate::insts::operand::{build_operand_values, build_plain_values, operand_values, plain_values};
use crate::ir::{Call, Callee, Constant, NameView, Operand, Type, Types};
use crate::text::{hex_char, hex_digits, str_eq};
use crate::types::{slots, then, TypeFlatter};
use crate::utils::builtin::{
    builtin_args_num,
    builtin_arity,
    is_builtin,
    is_builtin_name,
    strip_builtin_prefix,
};
use crate::utils::name::{tidy, yul_ident_name, yul_name};
use crate::yuler::ident::{ident_views, Ident};
use crate::yuler::literal::{
    all_hex_digits,
    is_hex_digit,
    is_hex_number,
    ASCIILiteral,
    Literal,
    LiteralView,
};
use crate::yuler::statement::{Statement, StatementView};
use crate::yuler::value::{lemma_call_args, value_views, FunctionCall, FunctionCallView, Value, ValueView};
use crate::yuler::variable::{VariableDeclare, VariableDeclareView};

verus! {

/// The built-in that builds a 256-bit literal from eight 32-bit words.
pub open spec fn literal_builtin() -> Seq<char> {
    "__yul__ext_literal"@
}

/// The built-in that gives the size of an object's code.
pub open spec fn datasize_builtin() -> Seq<char> {
    "__yul_datasize"@
}

/// The built-in that gives the place of an object's code.
pub open spec fn dataoffset_builtin() -> Seq<char> {
    "__yul_dataoffset"@
}

/// The name of the function that `call` calls: the target must be a
/// constant that names a global symbol.
pub open spec fn callee_name(call: &Call) -> Result<Seq<char>, ErrorView> {
    match call.function {
        Callee::Operand(Operand::ConstantOperand(Constant::GlobalReference { name, ty })) => Ok(
            yul_name(name@),
        ),
        Callee::Operand(Operand::ConstantOperand(_)) => Err(
            error_of(ErrorKind::NonGlobalCallee, Seq::empty()),
        ),
        _ => Err(error_of(ErrorKind::IndirectCallUnsupported, Seq::empty())),
    }
}

/// The name of the function that `call` calls, and the slots that its
/// result is bound to: none where the call has no destination.
///
/// The target must be a constant that names a global function; where the
/// call has a destination, the global must have a function type.
pub open spec fn name_and_rets(types: &Types, config: &Config, call: &Call, fuel: nat) -> Result<
    (Seq<char>, Seq<Seq<char>>),
    ErrorView,
> {
    match call.function {
        Callee::InlineAssembly => Err(
            error_of(ErrorKind::IndirectCallUnsupported, Seq::empty()),
        ),
        Callee::Operand(op) => match op {
            Operand::ConstantOperand(c) => match c {
                Constant::GlobalReference { name, ty } => match call.dest {
                    None => Ok((yul_name(name@), Seq::empty())),
                    Some(d) => match ty {
                        Type::FuncType { result_type, param_types, is_var_arg } => match slots(
                            types,
                            config,
                            tidy(yul_name(d@)),
                            &*result_type,
                            false,
                            fuel,
                        ) {
                            Ok(s) => Ok((yul_name(name@), s)),
                            Err(e) => Err(e),
                        },
                        _ => Err(error_of(ErrorKind::NonGlobalCallee, yul_name(name@))),
                    },
                },
                _ => Err(error_of(ErrorKind::NonGlobalCallee, Seq::empty())),
            },
            _ => Err(error_of(ErrorKind::IndirectCallUnsupported, Seq::empty())),
        },
    }
}

/// The value that the address of the global symbol `name`, whose value has
/// type `ty`, stands for as an argument: the name of a function as a
/// string, and zero for a global of the empty struct type. The address of
/// any other global cannot be passed.
pub open spec fn global_argument(name: NameView, ty: &Type) -> Result<Seq<ValueView>, ErrorView> {
    match ty {
        Type::FuncType { result_type, param_types, is_var_arg } => Ok(
            seq![ValueView::Literal(LiteralView::ASCII(yul_name(name)))],
        ),
        Type::StructType { element_types, is_packed } => if element_types@.len() == 0 {
            Ok(seq![number(0)])
        } else {
            Err(error_of(ErrorKind::WrongArgument, yul_name(name)))
        },
        _ => Err(error_of(ErrorKind::UnsupportedOperand, yul_name(name))),
    }
}

/// The values that the argument `op` stands for: taken apart slot by slot,
/// or as it is where `plain`.
pub open spec fn argument_values(
    types: &Types,
    config: &Config,
    op: &Operand,
    plain: bool,
    fuel: nat,
) -> Result<Seq<ValueView>, ErrorView> {
    match op {
        Operand::ConstantOperand(Constant::GlobalReference { name, ty }) => global_argument(
            name@,
            ty,
        ),
        _ => if plain {
            plain_values(types, config, op, fuel)
        } else {
            operand_values(types, config, op, fuel)
        },
    }
}

/// The values of the arguments from position `from` on: taken apart slot
/// by slot, or as they are where `plain`.
pub open spec fn args_values(
    types: &Types,
    config: &Config,
    args: Vec<Operand>,
    plain: bool,
    fuel: nat,
    from: nat,
) -> Result<Seq<ValueView>, ErrorView>
    decreases args.len() - from,
{
    if from >= args.len() {
        Ok(Seq::empty())
    } else {
        match argument_values(types, config, &args[from as int], plain, fuel) {
            Err(e) => Err(e),
            Ok(h) => then(h, args_values(types, config, args, plain, fuel, from + 1)),
        }
    }
}

/// The object that a call of `name` on `args` embeds: the one named by the
/// single argument of a call that asks for an object's size or place, which
/// must be the name of a global symbol.
pub open spec fn object_entry(name: Seq<char>, args: Seq<ValueView>) -> Result<
    Option<Seq<char>>,
    ErrorView,
> {
    if name == datasize_builtin() || name == dataoffset_builtin() {
        if args.len() == 1 && args[0] is Literal && args[0]->Literal_0 is ASCII {
            Ok(Some(args[0]->Literal_0->ASCII_0))
        } else {
            Err(error_of(ErrorKind::WrongArgument, name))
        }
    } else {
        Ok(None)
    }
}

/// The 32-bit word that `v` is, where it is a decimal literal of 32 bits.
pub open spec fn word_of(v: ValueView) -> Option<u64> {
    match v {
        ValueView::Literal(LiteralView::Number(n)) => if n <= 0xffff_ffff {
            Some(n)
        } else {
            None
        },
        _ => None,
    }
}

/// Whether a call of `name` on `args` builds a literal from eight words
/// that are all known.
pub open spec fn is_word_literal_call(name: Seq<char>, args: Seq<ValueView>) -> bool {
    name == literal_builtin() && args.len() == 8 && forall|i: int|
        0 <= i < 8 ==> word_of(#[trigger] args[i]) is Some
}

/// The 64-bit number whose upper 32 bits are `hi` and whose lower are `lo`.
pub open spec fn limb(hi: u64, lo: u64) -> nat {
    (hi as nat) * 0x1_0000_0000 + (lo as nat)
}

/// The number whose 64-bit digits are `l0` to `l3`, the lowest first.
pub open spec fn limbs_value(l0: nat, l1: nat, l2: nat, l3: nat) -> nat {
    l0 + l1 * 0x1_0000_0000_0000_0000 + l2 * 0x1_0000_0000_0000_0000_0000_0000_0000_0000 + l3
        * 0x1_0000_0000_0000_0000_0000_0000_0000_0000_0000_0000_0000_0000
}

/// The 256-bit number whose 32-bit digits are the eight words `args`, the
/// highest first.
pub open spec fn words_value(args: Seq<ValueView>) -> nat {
    limbs_value(
        limb(word_of(args[6])->0, word_of(args[7])->0),
        limb(word_of(args[4])->0, word_of(args[5])->0),
        limb(word_of(args[2])->0, word_of(args[3])->0),
        limb(word_of(args[0])->0, word_of(args[1])->0),
    )
}

/// The text of the hexadecimal literal that the eight words `args` fold to.
pub open spec fn folded_text(args: Seq<ValueView>) -> Seq<char> {
    "0x"@ + hex_digits(words_value(args))
}

/// The 32-bit word that the operand `op` is, where it is a constant
/// integer of 32 bits. A local value is no word, whatever it flattens to.
pub open spec fn operand_word(op: &Operand) -> Option<u64> {
    match op {
        Operand::ConstantOperand(Constant::Int { bits, value }) => if *value <= 0xffff_ffff {
            Some(*value)
        } else {
            None
        },
        _ => None,
    }
}

/// Whether `args` are eight operands that are each a constant word.
pub open spec fn has_word_operands(args: Vec<Operand>) -> bool {
    args.len() == 8 && forall|i: int| 0 <= i < 8 ==> operand_word(#[trigger] &args[i]) is Some
}

/// The 256-bit number whose 32-bit digits are the eight constant words
/// `args`, the highest first.
pub open spec fn operands_value(args: Vec<Operand>) -> nat {
    limbs_value(
        limb(operand_word(&args[6])->0, operand_word(&args[7])->0),
        limb(operand_word(&args[4])->0, operand_word(&args[5])->0),
        limb(operand_word(&args[2])->0, operand_word(&args[3])->0),
        limb(operand_word(&args[0])->0, operand_word(&args[1])->0),
    )
}

/// The text of the hexadecimal literal that the eight constant words
/// `args` fold to.
pub open spec fn operands_text(args: Vec<Operand>) -> Seq<char> {
    "0x"@ + hex_digits(operands_value(args))
}

/// Whether `call`, which calls `name` and binds `rets`, is folded: it must
/// have a destination, call the built-in that builds a literal, and pass
/// exactly eight arguments that are each a constant word.
pub open spec fn folds(call: &Call, name: Seq<char>, rets: Seq<Seq<char>>) -> bool {
    rets.len() > 0 && name == literal_builtin() && has_word_operands(call.arguments)
}

/// The name under which a call of `name` with `count` arguments is
/// written: a built-in loses its prefix, and must get as many arguments as
/// it takes; any other name stays.
pub open spec fn final_name(name: Seq<char>, count: nat) -> Result<Seq<char>, ErrorView> {
    match builtin_arity(name) {
        Some(n) => if count != n {
            Err(error_of(ErrorKind::WrongArity, name))
        } else {
            Ok(name.subrange(6, name.len() as int))
        },
        None => Ok(name),
    }
}

/// The statement that `call` lowers to, and the object that it embeds.
///
/// The arguments of a built-in are passed as they are, those of any other
/// function slot by slot. A call that builds a literal, has a destination,
/// and whose arguments are exactly eight constant words is folded into a
/// declaration of that literal. Every other call is lowered as an ordinary
/// call, also one of the literal built-in with an argument that is no
/// constant word: with a destination it is a declaration of the result's
/// slots, and without one a bare call.
pub open spec fn lowered_call(types: &Types, config: &Config, call: &Call, fuel: nat) -> Result<
    (StatementView, Option<Seq<char>>),
    ErrorView,
> {
    match name_and_rets(types, config, call, fuel) {
        Err(e) => Err(e),
        Ok((name, rets)) => match args_values(
            types,
            config,
            call.arguments,
            is_builtin_name(name),
            fuel,
            0,
        ) {
            Err(e) => Err(e),
            Ok(args) => match object_entry(name, args) {
                Err(e) => Err(e),
                Ok(object) => if folds(call, name, rets) {
                    Ok(
                        (
                            StatementView::VariableDeclare(
                                VariableDeclareView {
                                    names: rets,
                                    value: ValueView::Literal(
                                        LiteralView::HexNumber(operands_text(call.arguments)),
                                    ),
                                },
                            ),
                            object,
                        ),
                    )
                } else {
                    match final_name(name, args.len()) {
                        Err(e) => Err(e),
                        Ok(written) => {
                            let fc = FunctionCallView { name: written, args };
                            if rets.len() == 0 {
                                Ok((StatementView::FunctionCall(fc), object))
                            } else {
                                Ok(
                                    (
                                        StatementView::VariableDeclare(
                                            VariableDeclareView {
                                                names: rets,
                                                value: ValueView::FunctionCall(fc),
                                            },
                                        ),
                                        object,
                                    ),
                                )
                            }
                        },
                    }
                },
            },
        },
    }
}

/// The text that `primitive_types::U256` gives for `{:#x}`: `0x` and the
/// lower-case hexadecimal numeral, without leading zeros, of the number
/// whose 64-bit digits are `l0` to `l3`, the lowest first.
#[verifier::external_body]
fn u256_lower_hex(l0: u64, l1: u64, l2: u64, l3: u64) -> (r: String)
    ensures
        r@ == "0x"@ + hex_digits(limbs_value(l0 as nat, l1 as nat, l2 as nat, l3 as nat)),
{
    format!("{:#x}", U256([l0, l1, l2, l3]))
}

/// A hexadecimal numeral is hexadecimal digits, and at least one.
pub proof fn lemma_hex_digits(n: nat)
    ensures
        hex_digits(n).len() >= 1,
        all_hex_digits(hex_digits(n), 0),
    decreases n,
{
    if n >= 16 {
        lemma_hex_digits(n / 16);
        let s = hex_digits(n / 16);
        assert forall|i: int| 0 <= i < hex_digits(n).len() implies is_hex_digit(
            #[trigger] hex_digits(n)[i],
        ) by {
            if i < s.len() {
                assert(hex_digits(n)[i] == s[i]);
            }
        }
    }
}

/// What the words fold to is a hexadecimal number.
pub proof fn lemma_folded_is_hex_number(v: nat)
    ensures
        is_hex_number("0x"@ + hex_digits(v)),
{
    reveal_strlit("0x");
    lemma_hex_digits(v);
    let s = "0x"@ + hex_digits(v);
    assert(s[0] == '0' && s[1] == 'x');
    assert forall|i: int| 2 <= i < s.len() implies is_hex_digit(#[trigger] s[i]) by {
        assert(s[i] == hex_digits(v)[i - 2]);
    }
}

/// Constant words are passed as they are: where the arguments from
/// position `from` on are each a constant word, their values are the
/// numbers of those words, in order.
pub proof fn lemma_word_arguments(
    types: &Types,
    config: &Config,
    args: Vec<Operand>,
    plain: bool,
    fuel: nat,
    from: nat,
)
    requires
        from <= args.len(),
        forall|i: int| from <= i < args.len() ==> operand_word(#[trigger] &args[i]) is Some,
    ensures
        args_values(types, config, args, plain, fuel, from) matches Ok(v) && v.len() == args.len()
            - from && forall|j: int|
            0 <= j < v.len() ==> #[trigger] v[j] == number(operand_word(&args[from + j])->0),
    decreases args.len() - from,
{
    if from < args.len() {
        lemma_word_arguments(types, config, args, plain, fuel, from + 1);
        assert(operand_word(&args[from as int]) is Some);
        let head = argument_values(types, config, &args[from as int], plain, fuel);
        assert(head == Ok::<Seq<ValueView>, ErrorView>(
            seq![number(operand_word(&args[from as int])->0)],
        ));
        let rest = args_values(types, config, args, plain, fuel, from + 1)->Ok_0;
        let v = head->Ok_0 + rest;
        assert forall|j: int| 0 <= j < v.len() implies #[trigger] v[j] == number(
            operand_word(&args[from + j])->0,
        ) by {
            if j > 0 {
                assert(v[j] == rest[j - 1]);
            }
        }
    }
}

/// Only constants fold: a call with an argument that is no constant word,
/// or with other than eight arguments, lowers to an ordinary call or to an
/// error, never to the declaration of a literal.
pub proof fn lemma_only_constant_words_fold(
    types: &Types,
    config: &Config,
    call: &Call,
    fuel: nat,
)
    requires
        !has_word_operands(call.arguments),
    ensures
        lowered_call(types, config, call, fuel) matches Ok(p) ==> (match p.0 {
            StatementView::FunctionCall(c) => true,
            StatementView::VariableDeclare(d) => d.value is FunctionCall,
            _ => false,
        }),
{
}

/// Whether `args` are eight operands that are each a constant word.
pub fn check_word_operands(args: &Vec<Operand>) -> (r: bool)
    ensures
        r == has_word_operands(*args),
{
    if args.len() != 8 {
        return false;
    }
    let mut i: usize = 0;
    while i < 8
        invariant
            i <= 8,
            args.len() == 8,
            forall|j: int| 0 <= j < i ==> operand_word(#[trigger] &args[j]) is Some,
        decreases 8 - i,
    {
        let word = match &args[i] {
            Operand::ConstantOperand(Constant::Int { bits: _, value }) => *value <= 0xffff_ffff,
            _ => false,
        };
        if !word {
            assert(operand_word(&args[i as int]) is None);
            return false;
        }
        i += 1;
    }
    true
}

/// The values that the argument `op` stands for.
pub fn build_argument(types: &Types, config: &Config, op: &Operand, plain: bool) -> (r: Result<
    Vec<Value>,
    CompileError,
>)
    ensures
        values_outcome(
            r,
            argument_values(types, config, op, plain, types.named_struct_defs@.len() as nat),
        ),
{
    match op {
        Operand::ConstantOperand(Constant::GlobalReference { name, ty }) => {
            let symbol = yul_ident_name(name);
            match ty {
                Type::FuncType { result_type: _, param_types: _, is_var_arg: _ } => {
                    let mut out: Vec<Value> = Vec::new();
                    out.push(Value::Literal(Literal::ASCII(ASCIILiteral(symbol))));
                    assert(value_views(out@) =~= seq![
                        ValueView::Literal(LiteralView::ASCII(yul_name(name@))),
                    ]);
                    Ok(out)
                },
                Type::StructType { element_types, is_packed: _ } => {
                    if element_types.len() != 0 {
                        return Err(CompileError::new(ErrorKind::WrongArgument, symbol.as_str()));
                    }
                    let mut out: Vec<Value> = Vec::new();
                    out.push(number_value(0));
                    assert(value_views(out@) =~= seq![number(0)]);
                    Ok(out)
                },
                _ => Err(CompileError::new(ErrorKind::UnsupportedOperand, symbol.as_str())),
            }
        },
        _ => if plain {
            build_plain_values(types, config, op)
        } else {
            build_operand_values(types, config, op)
        },
    }
}

/// The object that `function_call` embeds, if any.
pub fn build_object_entry(function_call: &FunctionCall) -> (r: Result<Option<String>, CompileError>)
    ensures
        match object_entry(function_call@.name, function_call@.args) {
            Ok(Some(s)) => r matches Ok(Some(t)) && t@ == s,
            Ok(None) => r matches Ok(None),
            Err(e) => r matches Err(x) && x@ == e,
        },
{
    proof {
        lemma_call_args(function_call);
    }
    let s = function_call.name.0.as_str();
    if str_eq(s, "__yul_datasize") || str_eq(s, "__yul_dataoffset") {
        if function_call.args.len() == 1 {
            match &function_call.args[0] {
                Value::Literal(l) => match l.as_ascii() {
                    Some(r) => {
                        return Ok(Some(r.to_owned()));
                    },
                    None => {},
                },
                _ => {},
            }
        }
        Err(CompileError::new(ErrorKind::WrongArgument, s))
    } else {
        Ok(None)
    }
}

/// The word that `v` is, if it is one.
fn word_value(v: &Value) -> (r: Option<u64>)
    ensures
        r == word_of(v@),
{
    match v {
        Value::Literal(l) => match l.as_number() {
            Some(n) => if n <= 0xffff_ffff {
                Some(n)
            } else {
                None
            },
            None => None,
        },
        _ => None,
    }
}

/// The hexadecimal literal that the arguments of `function_call` fold to,
/// where it calls the literal built-in on eight number literals of 32
/// bits. Whether a call is folded at all is decided on its operands, before
/// this.
pub fn convert_literal(function_call: &FunctionCall) -> (r: Result<Option<Literal>, CompileError>)
    ensures
        r is Ok,
        match r->Ok_0 {
            Some(l) => is_word_literal_call(function_call@.name, function_call@.args) && l@
                == LiteralView::HexNumber(folded_text(function_call@.args)),
            None => !is_word_literal_call(function_call@.name, function_call@.args),
        },
{
    proof {
        lemma_call_args(function_call);
    }
    if !str_eq(function_call.name.0.as_str(), "__yul__ext_literal") {
        return Ok(None);
    }
    if function_call.args.len() != 8 {
        return Ok(None);
    }
    let ghost args = function_call@.args;
    let mut words: Vec<u64> = Vec::new();
    let mut i: usize = 0;
    while i < 8
        invariant
            i <= 8,
            function_call.args.len() == 8,
            args == value_views(function_call.args@),
            function_call@.name == literal_builtin(),
            function_call@.args == args,
            words.len() == i,
            forall|j: int| 0 <= j < i ==> word_of(#[trigger] args[j]) == Some(words@[j]),
        decreases 8 - i,
    {
        match word_value(&function_call.args[i]) {
            Some(w) => {
                words.push(w);
            },
            None => {
                assert(word_of(args[i as int]) is None);
                return Ok(None);
            },
        }
        i += 1;
    }
    let l3 = words[0] * 0x1_0000_0000 + words[1];
    let l2 = words[2] * 0x1_0000_0000 + words[3];
    let l1 = words[4] * 0x1_0000_0000 + words[5];
    let l0 = words[6] * 0x1_0000_0000 + words[7];
    let text = u256_lower_hex(l0, l1, l2, l3);
    proof {
        assert(word_of(args[0]) == Some(words@[0]));
        assert(word_of(args[1]) == Some(words@[1]));
        assert(word_of(args[2]) == Some(words@[2]));
        assert(word_of(args[3]) == Some(words@[3]));
        assert(word_of(args[4]) == Some(words@[4]));
        assert(word_of(args[5]) == Some(words@[5]));
        assert(word_of(args[6]) == Some(words@[6]));
        assert(word_of(args[7]) == Some(words@[7]));
        assert(text@ == folded_text(args));
        lemma_folded_is_hex_number(words_value(args));
    }
    match Literal::hex_number(text.as_str()) {
        Ok(l) => Ok(Some(l)),
        Err(_) => Ok(None),
    }
}

/// Renames a built-in to the bare name of its primitive, after checking
/// that it gets as many arguments as it takes. Any other call stays.
pub fn convert_builtin(function_call: &mut FunctionCall) -> (r: Result<(), CompileError>)
    ensures
        match final_name(old(function_call)@.name, old(function_call)@.args.len()) {
            Ok(written) => r is Ok && final(function_call)@ == (FunctionCallView {
                name: written,
                args: old(function_call)@.args,
            }),
            Err(e) => r matches Err(x) && x@ == e && final(function_call)@ == old(function_call)@,
        },
{
    proof {
        lemma_call_args(function_call);
    }
    let ghost before = function_call@;
    match builtin_args_num(function_call.name.0.as_str()) {
        Some(num_args) => {
            if function_call.args.len() != num_args {
                return Err(
                    CompileError::new(ErrorKind::WrongArity, function_call.name.0.as_str()),
                );
            }
            let res = strip_builtin_prefix(function_call.name.0.as_str());
            function_call.name = Ident(res);
            proof {
                lemma_call_args(function_call);
                assert(function_call@.args =~= before.args);
            }
            Ok(())
        },
        None => Ok(()),
    }
}

/// The name of the function that `call` calls.
pub fn build_call_function_name(call: &Call) -> (r: Result<Ident, CompileError>)
    ensures
        match callee_name(call) {
            Ok(name) => r matches Ok(i) && i@ == name,
            Err(e) => r matches Err(x) && x@ == e,
        },
{
    match &call.function {
        Callee::Operand(Operand::ConstantOperand(Constant::GlobalReference { name, ty: _ })) => Ok(
            Ident(yul_ident_name(name)),
        ),
        Callee::Operand(Operand::ConstantOperand(_)) => Err(
            CompileError::bare(ErrorKind::NonGlobalCallee),
        ),
        _ => Err(CompileError::bare(ErrorKind::IndirectCallUnsupported)),
    }
}

/// The arguments of `call`, slot by slot.
pub fn build_call_function_args(types: &Types, config: &Config, call: &Call) -> (r: Result<
    Vec<Value>,
    CompileError,
>)
    ensures
        values_outcome(
            r,
            args_values(
                types,
                config,
                call.arguments,
                false,
                types.named_struct_defs@.len() as nat,
                0,
            ),
        ),
{
    let compiler = CallCompiler::new(call, types, config);
    compiler.build_call_function_parameters()
}

/// Lowers one call instruction.
pub struct CallCompiler<'a> {
    pub call: &'a Call,
    pub types: &'a Types,
    pub config: &'a Config,
    /// The object that the compiled call embeds, if any.
    pub object: Option<String>,
}

impl<'a> CallCompiler<'a> {
    /// A compiler for `call`, which has embedded no object yet.
    pub fn new(call: &'a Call, types: &'a Types, config: &'a Config) -> (r: Self)
        ensures
            r.call == call,
            r.types == types,
            r.config == config,
            r.object is None,
    {
        CallCompiler { call, config, types, object: None }
    }

    /// How many named types may be resolved inside one another.
    pub open spec fn fuel(&self) -> nat {
        self.types.named_struct_defs@.len()
    }

    /// Lowers the call, and notes in `object` the object that it embeds. On
    /// an error `object` stays as it was.
    pub fn compile_call(&mut self) -> (r: Result<Statement, CompileError>)
        ensures
            final(self).call == old(self).call,
            final(self).types == old(self).types,
            final(self).config == old(self).config,
            match lowered_call(old(self).types, old(self).config, old(self).call, old(self).fuel()) {
                Ok((stmt, object)) => r matches Ok(s) && s@ == stmt && (match object {
                    Some(o) => final(self).object matches Some(t) && t@ == o,
                    None => final(self).object is None,
                }),
                Err(e) => r matches Err(x) && x@ == e && final(self).object == old(self).object,
            },
    {
        let (call_name, rets) = match self.build_call_function_name_and_rets() {
            Ok(p) => p,
            Err(e) => {
                return Err(e);
            },
        };
        let args = if is_builtin(call_name.as_str()) {
            match self.build_call_function_parameters_directly() {
                Ok(a) => a,
                Err(e) => {
                    return Err(e);
                },
            }
        } else {
            match self.build_call_function_parameters() {
                Ok(a) => a,
                Err(e) => {
                    return Err(e);
                },
            }
        };
        let mut func_call = FunctionCall { name: Ident(call_name), args };
        proof {
            lemma_call_args(&func_call);
        }
        let object = match build_object_entry(&func_call) {
            Ok(o) => o,
            Err(e) => {
                return Err(e);
            },
        };
        if rets.len() > 0 && str_eq(func_call.name.0.as_str(), "__yul__ext_literal")
            && check_word_operands(&self.call.arguments) {
            proof {
                lemma_word_arguments(
                    self.types,
                    self.config,
                    self.call.arguments,
                    is_builtin_name(func_call@.name),
                    self.fuel(),
                    0,
                );
                let words = func_call@.args;
                assert forall|i: int| 0 <= i < 8 implies word_of(#[trigger] words[i]) == Some(
                    operand_word(&self.call.arguments[i])->0,
                ) by {
                    assert(operand_word(&self.call.arguments[i]) is Some);
                }
                assert(words_value(words) == operands_value(self.call.arguments));
            }
            if let Ok(Some(res)) = convert_literal(&func_call) {
                self.object = object;
                return Ok(
                    Statement::VariableDeclare(
                        VariableDeclare { names: rets, value: Value::Literal(res) },
                    ),
                );
            }
        }
        match convert_builtin(&mut func_call) {
            Ok(()) => {},
            Err(e) => {
                return Err(e);
            },
        }
        self.object = object;
        Ok(
            if rets.len() == 0 {
                Statement::FunctionCall(func_call)
            } else {
                Statement::VariableDeclare(
                    VariableDeclare { names: rets, value: Value::FunctionCall(func_call) },
                )
            },
        )
    }

    /// The name of the called function, and the slots of the call's result.
    pub fn build_call_function_name_and_rets(&self) -> (r: Result<(String, Vec<Ident>), CompileError>)
        ensures
            match name_and_rets(self.types, self.config, self.call, self.fuel()) {
                Ok((name, rets)) => r matches Ok(p) && p.0@ == name && ident_views(p.1@) == rets,
                Err(e) => r matches Err(x) && x@ == e,
            },
    {
        let operand = match &self.call.function {
            Callee::Operand(op) => op,
            Callee::InlineAssembly => {
                return Err(CompileError::bare(ErrorKind::IndirectCallUnsupported));
            },
        };
        let constant = match operand {
            Operand::ConstantOperand(c) => c,
            _ => {
                return Err(CompileError::bare(ErrorKind::IndirectCallUnsupported));
            },
        };
        match constant {
            Constant::GlobalReference { name, ty } => {
                let name = yul_ident_name(name);
                match &self.call.dest {
                    Some(dest) => match ty {
                        Type::FuncType { result_type, param_types: _, is_var_arg: _ } => {
                            let flatter = TypeFlatter::new(self.types, self.config);
                            match flatter.flatten_parameter(dest, result_type) {
                                Ok(names) => Ok((name, names)),
                                Err(e) => Err(e),
                            }
                        },
                        _ => Err(CompileError::new(ErrorKind::NonGlobalCallee, name.as_str())),
                    },
                    None => {
                        let names: Vec<Ident> = Vec::new();
                        assert(ident_views(names@) =~= Seq::empty());
                        Ok((name, names))
                    },
                }
            },
            _ => Err(CompileError::bare(ErrorKind::NonGlobalCallee)),
        }
    }

    /// The arguments as they are, for a built-in.
    pub fn build_call_function_parameters_directly(&self) -> (r: Result<Vec<Value>, CompileError>)
        ensures
            values_outcome(
                r,
                args_values(self.types, self.config, self.call.arguments, true, self.fuel(), 0),
            ),
    {
        self.build_arguments(true)
    }

    /// The arguments slot by slot, for a function of the module.
    pub fn build_call_function_parameters(&self) -> (r: Result<Vec<Value>, CompileError>)
        ensures
            values_outcome(
                r,
                args_values(self.types, self.config, self.call.arguments, false, self.fuel(), 0),
            ),
    {
        self.build_arguments(false)
    }

    fn build_arguments(&self, plain: bool) -> (r: Result<Vec<Value>, CompileError>)
        ensures
            values_outcome(
                r,
                args_values(self.types, self.config, self.call.arguments, plain, self.fuel(), 0),
            ),
    {
        let ghost total = args_values(
            self.types,
            self.config,
            self.call.arguments,
            plain,
            self.fuel(),
            0,
        );
        let args = &self.call.arguments;
        let n = args.len();
        let mut res: Vec<Value> = Vec::new();
        let mut i: usize = 0;
        assert(value_views(res@) =~= Seq::empty());
        while i < n
            invariant
                i <= n,
                n == args.len(),
                args == &self.call.arguments,
                total == args_values(
                    self.types,
                    self.config,
                    self.call.arguments,
                    plain,
                    self.fuel(),
                    0,
                ),
                total == then(
                    value_views(res@),
                    args_values(
                        self.types,
                        self.config,
                        self.call.arguments,
                        plain,
                        self.fuel(),
                        i as nat,
                    ),
                ),
            decreases n - i,
        {
            let ghost before = value_views(res@);
            match build_argument(self.types, self.config, &args[i], plain) {
                Err(e) => {
                    return Err(e);
                },
                Ok(mut sub) => {
                    let ghost head = value_views(sub@);
                    res.append(&mut sub);
                    proof {
                        assert(value_views(res@) =~= before + head);
                        let rest = args_values(
                            self.types,
                            self.config,
                            self.call.arguments,
                            plain,
                            self.fuel(),
                            (i + 1) as nat,
                        );
                        match rest {
                            Ok(t) => {
                                assert(before + (head + t) =~= (before + head) + t);
                            },
                            Err(_) => {},
                        }
                    }
                },
            }
            i += 1;
        }
        proof {
            assert(value_views(res@) + Seq::<ValueView>::empty() =~= value_views(res@));
        }
        Ok(res)
    }
}

} // verus!
