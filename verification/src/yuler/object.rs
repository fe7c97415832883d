use vstd::prelude::*;
use vstd::string::*;

use crate::yuler::error::YulError;
use crate::yuler::ident::Ident;
use crate::yuler::literal::{hex_literal_bytes, HexLiteral};
use crate::yuler::statement::{emit_block, wrote, Block, StatementView};
use crate::yuler::writer::{Writer, WriterView};

verus! {

/// A named data segment of an object.
#[derive(Debug)]
pub struct Data {
    pub name: Ident,
    pub data: HexLiteral,
}

/// A unit of code with its data segments and the objects nested in it.
#[derive(Debug)]
pub struct Object {
    pub name: Ident,
    pub code: Block,
    pub data: Vec<Data>,
    pub objects: Vec<Object>,
}

/// What a data segment holds.
pub struct DataView {
    pub name: Seq<char>,
    pub data: Seq<char>,
}

/// What an object holds.
pub struct ObjectView {
    pub name: Seq<char>,
    pub code: Seq<StatementView>,
    pub data: Seq<DataView>,
    pub objects: Seq<ObjectView>,
}

impl View for Data {
    type V = DataView;

    open spec fn view(&self) -> DataView {
        DataView { name: self.name@, data: self.data@ }
    }
}

impl Clone for Data {
    fn clone(&self) -> (r: Self)
        ensures
            r@ == self@,
    {
        Data { name: self.name.clone(), data: self.data.clone() }
    }
}

/// What a list of data segments holds.
pub open spec fn data_views(s: Seq<Data>) -> Seq<DataView> {
    Seq::new(s.len(), |i: int| s[i]@)
}

impl Object {
    /// What the object holds.
    pub open spec fn model(&self) -> ObjectView
        decreases self,
    {
        ObjectView {
            name: self.name@,
            code: self.code@,
            data: data_views(self.data@),
            objects: Seq::new(
                self.objects.len() as nat,
                |i: int|
                    if 0 <= i < self.objects.len() {
                        self.objects[i].model()
                    } else {
                        ObjectView {
                            name: Seq::empty(),
                            code: Seq::empty(),
                            data: Seq::empty(),
                            objects: Seq::empty(),
                        }
                    },
            ),
        }
    }
}

impl View for Object {
    type V = ObjectView;

    open spec fn view(&self) -> ObjectView {
        self.model()
    }
}

/// What a list of objects holds.
pub open spec fn object_views(s: Seq<Object>) -> Seq<ObjectView> {
    Seq::new(s.len(), |i: int| s[i]@)
}

/// The writer after the data segments from position `i` on: `data `, the
/// quoted name, a space, the text, and a line break for each.
pub open spec fn emit_data(w: WriterView, data: Seq<DataView>, i: nat) -> WriterView
    decreases data.len() - i,
{
    if i >= data.len() {
        w
    } else {
        let d = data[i as int];
        emit_data(
            w.put_str("data "@).put_str("\""@).put_str(d.name).put_str("\""@).put_str(
                " "@,
            ).put_raw(hex_literal_bytes(d.data)).put_end(),
            data,
            i + 1,
        )
    }
}

/// The writer after the object `o`: `object`, the quoted name and `{`; one
/// step deeper `code ` with the code block, the data segments, and the
/// nested objects; then `}` on a line of its own.
#[verifier::opaque]
pub open spec fn emit_object(w: WriterView, o: ObjectView) -> Option<WriterView>
    decreases o,
{
    let w1 = w.put_str("object "@).put_str("\""@).put_str(o.name).put_str("\""@).put_str(
        " {"@,
    ).put_end();
    match w1.enter() {
        None => None,
        Some(w2) => match emit_block(w2.put_str("code "@), o.code) {
            None => None,
            Some(w3) => match emit_objects(emit_data(w3, o.data, 0).put_end(), o.objects, 0) {
                None => None,
                Some(w4) => Some(w4.leave().put_end().put_str("}"@)),
            },
        },
    }
}

/// The writer after the objects from position `i` on.
#[verifier::opaque]
pub open spec fn emit_objects(w: WriterView, objects: Seq<ObjectView>, i: nat) -> Option<
    WriterView,
>
    decreases objects, objects.len() - i,
{
    if i >= objects.len() {
        Some(w)
    } else {
        match emit_object(w, objects[i as int]) {
            None => None,
            Some(w1) => emit_objects(w1, objects, i + 1),
        }
    }
}

/// What `emit_object` is, in terms of `emit_objects`.
pub proof fn lemma_emit_object(w: WriterView, o: ObjectView)
    ensures
        emit_object(w, o) == ({
            let w1 = w.put_str("object "@).put_str("\""@).put_str(o.name).put_str("\""@).put_str(
                " {"@,
            ).put_end();
            match w1.enter() {
                None => None,
                Some(w2) => match emit_block(w2.put_str("code "@), o.code) {
                    None => None,
                    Some(w3) => match emit_objects(
                        emit_data(w3, o.data, 0).put_end(),
                        o.objects,
                        0,
                    ) {
                        None => None,
                        Some(w4) => Some(w4.leave().put_end().put_str("}"@)),
                    },
                },
            }
        }),
{
    reveal(emit_object);
    reveal(emit_objects);
}

/// What `emit_objects` is: nothing more at the end of the list, else one
/// object and the rest.
pub proof fn lemma_emit_objects(w: WriterView, objects: Seq<ObjectView>, i: nat)
    ensures
        emit_objects(w, objects, i) == (if i >= objects.len() {
            Some(w)
        } else {
            match emit_object(w, objects[i as int]) {
                None => None,
                Some(w1) => emit_objects(w1, objects, i + 1),
            }
        }),
{
    reveal(emit_object);
    reveal(emit_objects);
}

impl Object {
    /// An object named `name` without code, data or nested objects.
    pub fn new(name: Ident) -> (r: Object)
        ensures
            r@ == (ObjectView {
                name: name@,
                code: Seq::empty(),
                data: Seq::empty(),
                objects: Seq::empty(),
            }),
    {
        let r = Object { name, code: Block(Vec::new()), data: Vec::new(), objects: Vec::new() };
        assert(r@.code =~= Seq::empty());
        assert(r@.data =~= Seq::empty());
        assert(r@.objects =~= Seq::empty());
        r
    }

    /// Writes the object.
    pub fn write(&self, w: &mut Writer) -> (r: Result<(), YulError>)
        ensures
            wrote(r, old(w)@, final(w)@, emit_object(old(w)@, self@)),
        decreases self,
    {
        let ghost me = self@;
        let ghost w0 = w@;
        proof {
            lemma_emit_object(w0, me);
        }
        let _ = w.write_str("object ");
        let _ = self.name.write_qoute(w);
        let _ = w.write_str(" {");
        let _ = w.write_end();
        if let Err(e) = w.enter_block() {
            return Err(e);
        }
        let _ = w.write_str("code ");
        if let Err(e) = self.code.write(w) {
            return Err(e);
        }
        let ghost w3 = w@;
        let nd = self.data.len();
        let mut i: usize = 0;
        while i < nd
            invariant
                i <= nd,
                nd == self.data.len(),
                me == self@,
                w@.step == w3.step,
                emit_data(w3, me.data, 0) == emit_data(w@, me.data, i as nat),
            decreases nd - i,
        {
            let v = &self.data[i];
            assert(me.data[i as int] == v@);
            let _ = w.write_str("data ");
            let _ = v.name.write_qoute(w);
            let _ = w.write_str(" ");
            let _ = v.data.write(&mut w.w);
            let _ = w.write_end();
            i += 1;
        }
        let _ = w.write_end();
        let ghost start = w@;
        let n = self.objects.len();
        let mut k: usize = 0;
        while k < n
            invariant
                k <= n,
                n == self.objects.len(),
                me == self@,
                w@.step == start.step,
                emit_objects(start, me.objects, 0) == emit_objects(w@, me.objects, k as nat),
                emit_objects(start, me.objects, 0) is None ==> emit_object(old(w)@, self@) is None,
            decreases n - k,
        {
            proof {
                lemma_emit_objects(w@, me.objects, k as nat);
                assert(me.objects[k as int] == self.objects@[k as int]@);
            }
            if let Err(e) = self.objects[k].write(w) {
                return Err(e);
            }
            k += 1;
        }
        proof {
            lemma_emit_objects(w@, me.objects, n as nat);
        }
        w.leave_block();
        let _ = w.write_end();
        w.write_str("}")
    }
}

impl Clone for Object {
    fn clone(&self) -> (r: Self)
        ensures
            r@ == self@,
        decreases self,
    {
        let mut data: Vec<Data> = Vec::new();
        let mut i: usize = 0;
        while i < self.data.len()
            invariant
                i <= self.data.len(),
                data.len() == i,
                forall|j: int| 0 <= j < i ==> data@[j]@ == self.data@[j]@,
            decreases self.data.len() - i,
        {
            data.push(self.data[i].clone());
            i += 1;
        }
        let mut objects: Vec<Object> = Vec::new();
        let mut k: usize = 0;
        while k < self.objects.len()
            invariant
                k <= self.objects.len(),
                objects.len() == k,
                forall|j: int| 0 <= j < k ==> objects@[j]@ == self.objects@[j]@,
            decreases self.objects.len() - k,
        {
            objects.push(self.objects[k].clone());
            k += 1;
        }
        let r = Object { name: self.name.clone(), code: self.code.clone(), data, objects };
        assert(r@.data =~= self@.data);
        assert(r@.objects =~= self@.objects);
        r
    }
}

} // verus!
