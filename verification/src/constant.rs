//! The constant flattener: from a constant to the literals that stand for
//! its slots.
use vstd::prelude::*;
use vstd::string::*;

use crate::config::Config;
use crate::error::{error_of, CompileError, ErrorKind, ErrorView};
use crate::ir::{Constant, Type, Types};
use crate::types::{elem_slots, field_slots, indexed, lemma_slot_count, return_base, slots, then, TypeFlatter};
use crate::utils::name::{yul_ident_name, yul_name};
use crate::yuler::ident::ident_views;
use crate::yuler::literal::{ASCIILiteral, Literal, LiteralView, NumberLiteral};
use crate::yuler::value::{value_views, Value, ValueView};

verus! {

/// The literal of the decimal number `n`, as a value.
pub open spec fn number(n: u64) -> ValueView {
    ValueView::Literal(LiteralView::Number(n))
}

/// `n` times the literal zero.
pub open spec fn zeros(n: nat) -> Seq<ValueView> {
    Seq::new(n, |i: int| number(0))
}

/// The literals that stand for the slots of the constant `c`, in order.
///
/// An integer is its number and a null pointer is zero. A zero, undefined or
/// poison value of a type is a zero for each slot of the type. A struct or
/// an array is the literals of its parts. A cast between pointer and
/// integer is what it casts. The address of a global symbol is the symbol's
/// name as a string.
pub open spec fn constant_values(types: &Types, config: &Config, c: &Constant, fuel: nat) -> Result<
    Seq<ValueView>,
    ErrorView,
>
    decreases c, 0nat,
{
    match c {
        Constant::Int { bits, value } => Ok(seq![number(*value)]),
        Constant::Null(ty) => Ok(seq![number(0)]),
        Constant::AggregateZero(ty) => zero_values(types, config, ty, fuel),
        Constant::Struct { name, values, is_packed } => constants_values(
            types,
            config,
            *values,
            fuel,
            0,
        ),
        Constant::Array { element_type, elements } => constants_values(
            types,
            config,
            *elements,
            fuel,
            0,
        ),
        Constant::Undef(ty) => zero_values(types, config, ty, fuel),
        Constant::Poison(ty) => zero_values(types, config, ty, fuel),
        Constant::GlobalReference { name, ty } => Ok(
            seq![ValueView::Literal(LiteralView::ASCII(yul_name(name@)))],
        ),
        Constant::PtrToInt { operand, to_type } => constant_values(types, config, operand, fuel),
        Constant::IntToPtr { operand, to_type } => constant_values(types, config, operand, fuel),
        Constant::Other { text } => Err(error_of(ErrorKind::UnsupportedOperand, text@)),
    }
}

/// A zero for each slot of a value of type `ty`.
pub open spec fn zero_values(types: &Types, config: &Config, ty: &crate::ir::Type, fuel: nat) -> Result<
    Seq<ValueView>,
    ErrorView,
> {
    match slots(types, config, return_base(), ty, true, fuel) {
        Ok(s) => Ok(zeros(s.len())),
        Err(e) => Err(e),
    }
}

/// The literals of the constants from position `from` on.
pub open spec fn constants_values(
    types: &Types,
    config: &Config,
    cs: Vec<Constant>,
    fuel: nat,
    from: nat,
) -> Result<Seq<ValueView>, ErrorView>
    decreases cs, (cs.len() - from) + 1,
{
    if from >= cs.len() {
        Ok(Seq::empty())
    } else {
        match constant_values(types, config, &cs[from as int], fuel) {
            Err(e) => Err(e),
            Ok(head) => then(head, constants_values(types, config, cs, fuel, from + 1)),
        }
    }
}

/// Whether the outcome `r` is the values or the error that `s` gives.
pub open spec fn values_outcome(
    r: Result<Vec<Value>, CompileError>,
    s: Result<Seq<ValueView>, ErrorView>,
) -> bool {
    match r {
        Ok(v) => s == Ok::<Seq<ValueView>, ErrorView>(value_views(v@)),
        Err(e) => s == Err::<Seq<ValueView>, ErrorView>(e@),
    }
}

/// The literal of the decimal number `n`, as a value.
pub fn number_value(n: u64) -> (r: Value)
    ensures
        r@ == number(n),
{
    Value::Literal(Literal::Number(NumberLiteral(n)))
}

/// Flattens constants against a type table and a configuration.
pub struct ConstantFlatter<'a> {
    pub types: &'a Types,
    pub config: &'a Config,
}

impl<'a> ConstantFlatter<'a> {
    /// A flattener over `types` and `config`.
    pub fn new(types: &'a Types, config: &'a Config) -> (r: Self)
        ensures
            r.types == types,
            r.config == config,
    {
        ConstantFlatter { types, config }
    }

    /// How many named types may be resolved inside one another.
    pub open spec fn fuel(&self) -> nat {
        self.types.named_struct_defs@.len()
    }

    /// The literals that stand for the slots of `constant`.
    pub fn flatten(&self, constant: &Constant) -> (r: Result<Vec<Value>, CompileError>)
        ensures
            values_outcome(r, constant_values(self.types, self.config, constant, self.fuel())),
        decreases constant,
    {
        let ghost total = constant_values(self.types, self.config, constant, self.fuel());
        match constant {
            Constant::Int { bits: _, value } => {
                let mut out: Vec<Value> = Vec::new();
                out.push(number_value(*value));
                assert(value_views(out@) =~= seq![number(*value)]);
                Ok(out)
            },
            Constant::Null(_) => {
                let mut out: Vec<Value> = Vec::new();
                out.push(number_value(0));
                assert(value_views(out@) =~= seq![number(0)]);
                Ok(out)
            },
            Constant::AggregateZero(ty) => self.build_type_values(ty),
            Constant::Struct { name: _, values, is_packed: _ } => self.flatten_all(values),
            Constant::Array { element_type: _, elements } => self.flatten_all(elements),
            Constant::Undef(ty) => self.build_type_values(ty),
            Constant::Poison(ty) => self.build_type_values(ty),
            Constant::PtrToInt { operand, to_type: _ } => self.flatten(operand),
            Constant::IntToPtr { operand, to_type: _ } => self.flatten(operand),
            Constant::GlobalReference { name, ty: _ } => {
                let mut out: Vec<Value> = Vec::new();
                out.push(Value::Literal(Literal::ASCII(ASCIILiteral(yul_ident_name(name)))));
                assert(value_views(out@) =~= seq![
                    ValueView::Literal(LiteralView::ASCII(yul_name(name@))),
                ]);
                Ok(out)
            },
            Constant::Other { text } => Err(
                CompileError::new(ErrorKind::UnsupportedOperand, text.as_str()),
            ),
        }
    }

    /// The literals of all of `cs`, in order.
    pub fn flatten_all(&self, cs: &Vec<Constant>) -> (r: Result<Vec<Value>, CompileError>)
        ensures
            values_outcome(r, constants_values(self.types, self.config, *cs, self.fuel(), 0)),
        decreases cs,
    {
        let ghost total = constants_values(self.types, self.config, *cs, self.fuel(), 0);
        let n = cs.len();
        let mut out: Vec<Value> = Vec::new();
        let mut i: usize = 0;
        assert(value_views(out@) =~= Seq::empty());
        while i < n
            invariant
                i <= n,
                n == cs.len(),
                total == constants_values(self.types, self.config, *cs, self.fuel(), 0),
                total == then(
                    value_views(out@),
                    constants_values(self.types, self.config, *cs, self.fuel(), i as nat),
                ),
            decreases n - i,
        {
            let ghost before = value_views(out@);
            match self.flatten(&cs[i]) {
                Err(e) => {
                    return Err(e);
                },
                Ok(mut sub) => {
                    let ghost head = value_views(sub@);
                    out.append(&mut sub);
                    proof {
                        assert(value_views(out@) =~= before + head);
                        let rest = constants_values(
                            self.types,
                            self.config,
                            *cs,
                            self.fuel(),
                            (i + 1) as nat,
                        );
                        match rest {
                            Ok(t) => {
                                assert(before + (head + t) =~= (before + head) + t);
                            },
                            Err(_) => {},
                        }
                    }
                },
            }
            i += 1;
        }
        proof {
            assert(value_views(out@) + Seq::<ValueView>::empty() =~= value_views(out@));
        }
        Ok(out)
    }

    /// A zero for each slot of a value of type `ty`.
    pub fn build_type_values(&self, ty: &crate::ir::Type) -> (r: Result<Vec<Value>, CompileError>)
        ensures
            values_outcome(r, zero_values(self.types, self.config, ty, self.fuel())),
    {
        let flatter = TypeFlatter::new(self.types, self.config);
        match flatter.flatten_return_type(ty) {
            Err(e) => Err(e),
            Ok(res) => {
                let n = res.len();
                let mut out: Vec<Value> = Vec::new();
                let mut i: usize = 0;
                while i < n
                    invariant
                        i <= n,
                        out.len() == i,
                        forall|j: int| 0 <= j < i ==> out@[j]@ == number(0),
                    decreases n - i,
                {
                    out.push(number_value(0));
                    i += 1;
                }
                assert(value_views(out@) =~= zeros(ident_views(res@).len()));
                Ok(out)
            },
        }
    }
}

/// Whether the constant `c` has the shape of a value of type `ty`: an
/// integer for an integer type, a null pointer or the address of a global
/// for a pointer type, a struct or an array whose parts have the shape of
/// the type's parts, a zero, undefined or poison value of that very type,
/// and a cast for the kind of type that it casts to.
pub open spec fn has_shape(c: &Constant, ty: &Type) -> bool
    decreases c, 0nat,
{
    match c {
        Constant::Int { bits, value } => ty is IntegerType,
        Constant::Null(t) => ty is PointerType,
        Constant::AggregateZero(t) => t == ty,
        Constant::Undef(t) => t == ty,
        Constant::Poison(t) => t == ty,
        Constant::Struct { name, values, is_packed } => ty is StructType && values.len()
            == ty->StructType_element_types.len() && fields_have_shape(
            *values,
            ty->StructType_element_types,
            0,
        ),
        Constant::Array { element_type, elements } => ty is ArrayType && elements.len()
            == ty->ArrayType_num_elements && elems_have_shape(
            *elements,
            &*ty->ArrayType_element_type,
            0,
        ),
        Constant::GlobalReference { name, ty: of } => ty is PointerType,
        Constant::PtrToInt { operand, to_type } => ty is IntegerType && has_shape(
            operand,
            &Type::PointerType { addr_space: 0 },
        ),
        Constant::IntToPtr { operand, to_type } => ty is PointerType && has_shape(
            operand,
            &Type::IntegerType { bits: 64 },
        ),
        Constant::Other { text } => false,
    }
}

/// Whether each constant from position `from` on has the shape of the type
/// at its position.
pub open spec fn fields_have_shape(cs: Vec<Constant>, tys: Vec<Type>, from: nat) -> bool
    decreases cs, (cs.len() - from) + 1,
{
    if from >= cs.len() {
        true
    } else {
        from < tys.len() && has_shape(&cs[from as int], &tys[from as int]) && fields_have_shape(
            cs,
            tys,
            from + 1,
        )
    }
}

/// Whether each constant from position `from` on has the shape of `ty`.
pub open spec fn elems_have_shape(cs: Vec<Constant>, ty: &Type, from: nat) -> bool
    decreases cs, (cs.len() - from) + 1,
{
    if from >= cs.len() {
        true
    } else {
        has_shape(&cs[from as int], ty) && elems_have_shape(cs, ty, from + 1)
    }
}

/// A constant argument lines up with its parameter: a constant that has
/// the shape of the type `ty` flattens into as many values as a value of
/// type `ty` has slots, under whatever name.
pub proof fn lemma_constant_matches_slots(
    types: &Types,
    config: &Config,
    c: &Constant,
    ty: &Type,
    base: Seq<char>,
    void_ok: bool,
    fuel: nat,
)
    requires
        has_shape(c, ty),
    ensures
        (constant_values(types, config, c, fuel) is Ok && slots(
            types,
            config,
            base,
            ty,
            void_ok,
            fuel,
        ) is Ok) ==> constant_values(types, config, c, fuel)->Ok_0.len() == slots(
            types,
            config,
            base,
            ty,
            void_ok,
            fuel,
        )->Ok_0.len(),
    decreases c, 0nat,
{
    match c {
        Constant::AggregateZero(t) => {
            lemma_slot_count(types, config, return_base(), ty, true, fuel);
            lemma_slot_count(types, config, base, ty, void_ok, fuel);
        },
        Constant::Undef(t) => {
            lemma_slot_count(types, config, return_base(), ty, true, fuel);
            lemma_slot_count(types, config, base, ty, void_ok, fuel);
        },
        Constant::Poison(t) => {
            lemma_slot_count(types, config, return_base(), ty, true, fuel);
            lemma_slot_count(types, config, base, ty, void_ok, fuel);
        },
        Constant::Struct { name, values, is_packed } => {
            lemma_fields_match_slots(
                types,
                config,
                *values,
                ty->StructType_element_types,
                base,
                void_ok,
                fuel,
                0,
            );
        },
        Constant::Array { element_type, elements } => {
            lemma_elems_match_slots(
                types,
                config,
                *elements,
                &*ty->ArrayType_element_type,
                base,
                void_ok,
                fuel,
                0,
            );
        },
        Constant::PtrToInt { operand, to_type } => {
            lemma_constant_matches_slots(
                types,
                config,
                operand,
                &Type::PointerType { addr_space: 0 },
                base,
                void_ok,
                fuel,
            );
        },
        Constant::IntToPtr { operand, to_type } => {
            lemma_constant_matches_slots(
                types,
                config,
                operand,
                &Type::IntegerType { bits: 64 },
                base,
                void_ok,
                fuel,
            );
        },
        _ => {},
    }
}

proof fn lemma_fields_match_slots(
    types: &Types,
    config: &Config,
    cs: Vec<Constant>,
    tys: Vec<Type>,
    base: Seq<char>,
    void_ok: bool,
    fuel: nat,
    from: nat,
)
    requires
        cs.len() == tys.len(),
        fields_have_shape(cs, tys, from),
    ensures
        (constants_values(types, config, cs, fuel, from) is Ok && field_slots(
            types,
            config,
            base,
            tys,
            void_ok,
            fuel,
            from,
        ) is Ok) ==> constants_values(types, config, cs, fuel, from)->Ok_0.len() == field_slots(
            types,
            config,
            base,
            tys,
            void_ok,
            fuel,
            from,
        )->Ok_0.len(),
    decreases cs, (cs.len() - from) + 1,
{
    if from < cs.len() {
        lemma_constant_matches_slots(
            types,
            config,
            &cs[from as int],
            &tys[from as int],
            indexed(base, from),
            void_ok,
            fuel,
        );
        lemma_fields_match_slots(types, config, cs, tys, base, void_ok, fuel, from + 1);
    }
}

proof fn lemma_elems_match_slots(
    types: &Types,
    config: &Config,
    cs: Vec<Constant>,
    ty: &Type,
    base: Seq<char>,
    void_ok: bool,
    fuel: nat,
    from: nat,
)
    requires
        elems_have_shape(cs, ty, from),
        from <= cs.len(),
    ensures
        (constants_values(types, config, cs, fuel, from) is Ok && elem_slots(
            types,
            config,
            base,
            ty,
            void_ok,
            fuel,
            from,
            cs.len() as nat,
        ) is Ok) ==> constants_values(types, config, cs, fuel, from)->Ok_0.len() == elem_slots(
            types,
            config,
            base,
            ty,
            void_ok,
            fuel,
            from,
            cs.len() as nat,
        )->Ok_0.len(),
    decreases cs, (cs.len() - from) + 1,
{
    if from < cs.len() {
        lemma_constant_matches_slots(
            types,
            config,
            &cs[from as int],
            ty,
            indexed(base, from),
            void_ok,
            fuel,
        );
        lemma_elems_match_slots(types, config, cs, ty, base, void_ok, fuel, from + 1);
    }
}

} // verus!
