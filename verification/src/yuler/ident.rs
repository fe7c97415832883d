use vstd::prelude::*;
use vstd::string::*;

use crate::yuler::error::YulError;
use crate::yuler::writer::Writer;

verus! {

/// An identifier of the target language.
#[derive(Debug)]
pub struct Ident(pub String);

impl View for Ident {
    type V = Seq<char>;

    open spec fn view(&self) -> Seq<char> {
        self.0@
    }
}

impl Clone for Ident {
    fn clone(&self) -> (r: Self)
        ensures
            r@ == self@,
    {
        Ident(self.0.clone())
    }
}

/// The names of a list of identifiers.
pub open spec fn ident_views(s: Seq<Ident>) -> Seq<Seq<char>> {
    Seq::new(s.len(), |i: int| s[i]@)
}

/// Copies a list of identifiers.
pub fn clone_idents(v: &Vec<Ident>) -> (r: Vec<Ident>)
    ensures
        ident_views(r@) == ident_views(v@),
{
    let mut out: Vec<Ident> = Vec::new();
    let mut i: usize = 0;
    while i < v.len()
        invariant
            i <= v.len(),
            out.len() == i,
            forall|j: int| 0 <= j < i ==> out@[j]@ == v@[j]@,
        decreases v.len() - i,
    {
        out.push(v[i].clone());
        i += 1;
    }
    assert(ident_views(out@) =~= ident_views(v@));
    out
}

impl Ident {
    /// The identifier named `s`. Every name is accepted.
    pub fn new(s: &str) -> (r: Result<Ident, YulError>)
        ensures
            r matches Ok(i) && i@ == s@,
    {
        Ok(Ident(s.to_owned()))
    }

    /// Writes the name.
    pub fn write(&self, w: &mut Writer) -> (r: Result<(), YulError>)
        ensures
            r is Ok,
            final(w)@ == old(w)@.put_str(self@),
    {
        w.write_str(self.0.as_str())
    }

    /// Writes the name between double quotes.
    pub fn write_qoute(&self, w: &mut Writer) -> (r: Result<(), YulError>)
        ensures
            r is Ok,
            final(w)@ == old(w)@.put_str("\""@).put_str(self@).put_str("\""@),
    {
        let _ = w.write_str("\"");
        let _ = w.write_str(self.0.as_str());
        w.write_str("\"")
    }
}

} // verus!
