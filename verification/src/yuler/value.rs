use vstd::prelude::*;
use vstd::string::*;

use crate::yuler::error::YulError;
use crate::yuler::ident::Ident;
use crate::yuler::literal::{Literal, LiteralView};
use crate::yuler::writer::{Writer, WriterView};

verus! {

/// An expression: a literal, a variable, or a call.
#[derive(Debug)]
pub enum Value {
    Literal(Literal),
    Ident(Ident),
    FunctionCall(FunctionCall),
}

/// A call of the function `name` on `args`.
#[derive(Debug)]
pub struct FunctionCall {
    pub name: Ident,
    pub args: Vec<Value>,
}

/// What an expression holds.
pub enum ValueView {
    Literal(LiteralView),
    Ident(Seq<char>),
    FunctionCall(FunctionCallView),
}

/// What a call holds.
pub struct FunctionCallView {
    pub name: Seq<char>,
    pub args: Seq<ValueView>,
}

impl View for Value {
    type V = ValueView;

    open spec fn view(&self) -> ValueView
        decreases self,
    {
        match self {
            Value::Literal(l) => ValueView::Literal(l@),
            Value::Ident(i) => ValueView::Ident(i@),
            Value::FunctionCall(c) => ValueView::FunctionCall(c.view()),
        }
    }
}

impl View for FunctionCall {
    type V = FunctionCallView;

    open spec fn view(&self) -> FunctionCallView
        decreases self,
    {
        FunctionCallView {
            name: self.name@,
            args: Seq::new(
                self.args.len() as nat,
                |i: int|
                    if 0 <= i < self.args.len() {
                        self.args[i].view()
                    } else {
                        ValueView::Ident(Seq::empty())
                    },
            ),
        }
    }
}

/// What a list of expressions holds.
pub open spec fn value_views(s: Seq<Value>) -> Seq<ValueView> {
    Seq::new(s.len(), |i: int| s[i]@)
}

/// A call's arguments are the views of the arguments.
pub proof fn lemma_call_args(c: &FunctionCall)
    ensures
        c@.args == value_views(c.args@),
        c@.name == c.name@,
{
    assert(c@.args =~= value_views(c.args@));
}

/// The writer after the expression `v`.
pub open spec fn emit_value(w: WriterView, v: ValueView) -> WriterView
    decreases v,
{
    match v {
        ValueView::Literal(l) => w.put_raw(l.bytes()),
        ValueView::Ident(n) => w.put_str(n),
        ValueView::FunctionCall(c) => emit_call(w, c),
    }
}

/// The writer after the call `c`: the name, and the arguments between
/// brackets, with `, ` between two of them.
pub open spec fn emit_call(w: WriterView, c: FunctionCallView) -> WriterView
    decreases c,
{
    emit_args(w.put_str(c.name).put_str("("@), c.args, 0).put_str(")"@)
}

/// The writer after the arguments from position `i` on.
pub open spec fn emit_args(w: WriterView, args: Seq<ValueView>, i: nat) -> WriterView
    decreases args, args.len() - i,
{
    if i >= args.len() {
        w
    } else {
        let w1 = emit_value(w, args[i as int]);
        if i + 1 == args.len() {
            w1
        } else {
            emit_args(w1.put_str(", "@), args, i + 1)
        }
    }
}

/// The writer after the names from position `i` on, with `, ` between two of them.
pub open spec fn emit_names(w: WriterView, names: Seq<Seq<char>>, i: nat) -> WriterView
    decreases names.len() - i,
{
    if i >= names.len() {
        w
    } else {
        let w1 = w.put_str(names[i as int]);
        if i + 1 == names.len() {
            w1
        } else {
            emit_names(w1.put_str(", "@), names, i + 1)
        }
    }
}

impl Value {
    /// Writes the expression.
    pub fn write(&self, w: &mut Writer) -> (r: Result<(), YulError>)
        ensures
            r is Ok,
            final(w)@ == emit_value(old(w)@, self@),
            final(w)@.step == old(w)@.step,
        decreases self,
    {
        match self {
            Value::Literal(v) => v.write(&mut w.w),
            Value::Ident(v) => v.write(w),
            Value::FunctionCall(v) => v.write(w),
        }
    }
}

impl Clone for Value {
    fn clone(&self) -> (r: Self)
        ensures
            r@ == self@,
        decreases self,
    {
        match self {
            Value::Literal(v) => Value::Literal(v.clone()),
            Value::Ident(v) => Value::Ident(v.clone()),
            Value::FunctionCall(v) => Value::FunctionCall(v.clone()),
        }
    }
}

impl FunctionCall {
    /// A call of `name` without arguments.
    pub fn new(name: Ident) -> (r: FunctionCall)
        ensures
            r@ == (FunctionCallView { name: name@, args: Seq::empty() }),
    {
        let r = FunctionCall { name, args: Vec::new() };
        assert(r@.args =~= Seq::empty());
        r
    }

    /// Writes the call.
    pub fn write(&self, w: &mut Writer) -> (r: Result<(), YulError>)
        ensures
            r is Ok,
            final(w)@ == emit_call(old(w)@, self@),
            final(w)@.step == old(w)@.step,
        decreases self,
    {
        let _ = self.name.write(w);
        let _ = w.write_str("(");
        let ghost start = w@;
        let n = self.args.len();
        let mut i: usize = 0;
        while i < n
            invariant
                i <= n,
                n == self.args.len(),
                w@.step == old(w)@.step,
                emit_args(start, self@.args, 0) == emit_args(w@, self@.args, i as nat),
            decreases n - i,
        {
            let _ = self.args[i].write(w);
            if i + 1 < n {
                let _ = w.write_str(", ");
            }
            i += 1;
        }
        w.write_str(")")
    }
}

impl Clone for FunctionCall {
    fn clone(&self) -> (r: Self)
        ensures
            r@ == self@,
        decreases self,
    {
        let mut args: Vec<Value> = Vec::new();
        let mut i: usize = 0;
        while i < self.args.len()
            invariant
                i <= self.args.len(),
                args.len() == i,
                forall|j: int| 0 <= j < i ==> args@[j]@ == self.args@[j]@,
            decreases self.args.len() - i,
        {
            args.push(self.args[i].clone());
            i += 1;
        }
        let r = FunctionCall { name: self.name.clone(), args };
        assert(r@.args =~= self@.args);
        r
    }
}

impl From<Literal> for Value {
    fn from(value: Literal) -> (r: Self) {
        Value::Literal(value)
    }
}

impl vstd::std_specs::convert::FromSpecImpl<Literal> for Value {
    open spec fn obeys_from_spec() -> bool {
        true
    }

    open spec fn from_spec(v: Literal) -> Self {
        Value::Literal(v)
    }
}

impl From<Ident> for Value {
    fn from(value: Ident) -> (r: Self) {
        Value::Ident(value)
    }
}

impl vstd::std_specs::convert::FromSpecImpl<Ident> for Value {
    open spec fn obeys_from_spec() -> bool {
        true
    }

    open spec fn from_spec(v: Ident) -> Self {
        Value::Ident(v)
    }
}

impl From<FunctionCall> for Value {
    fn from(value: FunctionCall) -> (r: Self) {
        Value::FunctionCall(value)
    }
}

impl vstd::std_specs::convert::FromSpecImpl<FunctionCall> for Value {
    open spec fn obeys_from_spec() -> bool {
        true
    }

    open spec fn from_spec(v: FunctionCall) -> Self {
        Value::FunctionCall(v)
    }
}

} // verus!
