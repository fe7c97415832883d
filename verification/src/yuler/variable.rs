use vstd::prelude::*;
use vstd::string::*;

use crate::yuler::error::YulError;
use crate::yuler::ident::{clone_idents, ident_views, Ident};
use crate::yuler::value::{emit_names, emit_value, Value, ValueView};
use crate::yuler::writer::{Writer, WriterView};

verus! {

/// A declaration of the variables `names`, bound to what `value` gives.
#[derive(Debug)]
pub struct VariableDeclare {
    pub names: Vec<Ident>,
    pub value: Value,
}

/// An assignment of what `value` gives to the variables `names`.
#[derive(Debug)]
pub struct Assignment {
    pub names: Vec<Ident>,
    pub value: Value,
}

/// What a declaration holds.
pub struct VariableDeclareView {
    pub names: Seq<Seq<char>>,
    pub value: ValueView,
}

/// What an assignment holds.
pub struct AssignmentView {
    pub names: Seq<Seq<char>>,
    pub value: ValueView,
}

impl View for VariableDeclare {
    type V = VariableDeclareView;

    open spec fn view(&self) -> VariableDeclareView {
        VariableDeclareView { names: ident_views(self.names@), value: self.value@ }
    }
}

impl View for Assignment {
    type V = AssignmentView;

    open spec fn view(&self) -> AssignmentView {
        AssignmentView { names: ident_views(self.names@), value: self.value@ }
    }
}

/// The writer after the declaration `d`: `let`, the names, ` := `, the value.
pub open spec fn emit_declare(w: WriterView, d: VariableDeclareView) -> WriterView {
    emit_value(emit_names(w.put_str("let "@), d.names, 0).put_str(" := "@), d.value)
}

/// The writer after the assignment `a`: the names, ` := `, the value.
pub open spec fn emit_assign(w: WriterView, a: AssignmentView) -> WriterView {
    emit_value(emit_names(w, a.names, 0).put_str(" := "@), a.value)
}

/// Writes `names` with `, ` between two of them.
pub fn write_names(names: &Vec<Ident>, w: &mut Writer)
    ensures
        final(w)@ == emit_names(old(w)@, ident_views(names@), 0),
        final(w)@.step == old(w)@.step,
{
    let n = names.len();
    let mut i: usize = 0;
    while i < n
        invariant
            i <= n,
            n == names.len(),
            w@.step == old(w)@.step,
            emit_names(old(w)@, ident_views(names@), 0) == emit_names(
                w@,
                ident_views(names@),
                i as nat,
            ),
        decreases n - i,
    {
        let _ = names[i].write(w);
        if i + 1 < n {
            let _ = w.write_str(", ");
        }
        i += 1;
    }
}

impl VariableDeclare {
    /// Writes the declaration.
    pub fn write(&self, writer: &mut Writer) -> (r: Result<(), YulError>)
        ensures
            r is Ok,
            final(writer)@ == emit_declare(old(writer)@, self@),
            final(writer)@.step == old(writer)@.step,
    {
        let _ = writer.write_str("let ");
        write_names(&self.names, writer);
        let _ = writer.write_str(" := ");
        self.value.write(writer)
    }
}

impl Clone for VariableDeclare {
    fn clone(&self) -> (r: Self)
        ensures
            r@ == self@,
    {
        VariableDeclare { names: clone_idents(&self.names), value: self.value.clone() }
    }
}

impl Assignment {
    /// Writes the assignment.
    pub fn write(&self, writer: &mut Writer) -> (r: Result<(), YulError>)
        ensures
            r is Ok,
            final(writer)@ == emit_assign(old(writer)@, self@),
            final(writer)@.step == old(writer)@.step,
    {
        write_names(&self.names, writer);
        let _ = writer.write_str(" := ");
        self.value.write(writer)
    }
}

impl Clone for Assignment {
    fn clone(&self) -> (r: Self)
        ensures
            r@ == self@,
    {
        Assignment { names: clone_idents(&self.names), value: self.value.clone() }
    }
}

} // verus!
