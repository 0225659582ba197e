//! The JSON value tree the wire carries.
//!
//! Numbers are kept as their lexeme text: the decoders never do floating
//! point arithmetic, they only classify and carry the text, so nothing is
//! lost and every value round-trips exactly.  Objects keep their fields in
//! wire order, duplicates included, so decoders that must reject a
//! duplicate field can see it.

use vstd::prelude::*;

use crate::numbers::is_json_number;

verus! {

/// A JSON value as decoded from text.
#[derive(Debug, PartialEq)]
pub enum JsonValue {
    Null,
    Bool(bool),
    /// A number, kept as its lexeme text.
    Num(String),
    Str(String),
    Arr(Vec<JsonValue>),
    /// Fields in wire order; duplicate names are kept.
    Obj(Vec<(String, JsonValue)>),
}

/// The mathematical shape of a `JsonValue`.
pub enum JsonV {
    Null,
    Bool(bool),
    Num(Seq<char>),
    Str(Seq<char>),
    Arr(Seq<JsonV>),
    Obj(Seq<(Seq<char>, JsonV)>),
}

impl JsonValue {
    pub open spec fn jview(self) -> JsonV
        decreases self,
    {
        match self {
            JsonValue::Null => JsonV::Null,
            JsonValue::Bool(b) => JsonV::Bool(b),
            JsonValue::Num(s) => JsonV::Num(s@),
            JsonValue::Str(s) => JsonV::Str(s@),
            JsonValue::Arr(a) => JsonV::Arr(arr_view(a@)),
            JsonValue::Obj(o) => JsonV::Obj(obj_view(o@)),
        }
    }
}

impl View for JsonValue {
    type V = JsonV;

    open spec fn view(&self) -> JsonV {
        (*self).jview()
    }
}

pub open spec fn arr_view(a: Seq<JsonValue>) -> Seq<JsonV>
    decreases a,
{
    if a.len() == 0 {
        Seq::empty()
    } else {
        arr_view(a.drop_last()).push(a.last().jview())
    }
}

pub open spec fn obj_view(o: Seq<(String, JsonValue)>) -> Seq<(Seq<char>, JsonV)>
    decreases o,
{
    if o.len() == 0 {
        Seq::empty()
    } else {
        obj_view(o.drop_last()).push((o.last().0@, o.last().1.jview()))
    }
}

pub proof fn lemma_arr_view(a: Seq<JsonValue>)
    ensures
        arr_view(a).len() == a.len(),
        forall|i: int| 0 <= i < a.len() ==> #[trigger] arr_view(a)[i] == a[i].jview(),
    decreases a,
{
    if a.len() > 0 {
        lemma_arr_view(a.drop_last());
    }
}

pub proof fn lemma_obj_view(o: Seq<(String, JsonValue)>)
    ensures
        obj_view(o).len() == o.len(),
        forall|i: int| 0 <= i < o.len() ==> #[trigger] obj_view(o)[i] == (o[i].0@, o[i].1.jview()),
    decreases o,
{
    if o.len() > 0 {
        lemma_obj_view(o.drop_last());
    }
}

/// A well-formed value: every number in the tree is a JSON number lexeme.
/// The parser only produces well-formed values.
pub open spec fn wf_json(v: JsonValue) -> bool
    decreases v,
{
    match v {
        JsonValue::Num(s) => is_json_number(s@),
        JsonValue::Arr(a) => forall|i: int| 0 <= i < a@.len() ==> wf_json(#[trigger] a@[i]),
        JsonValue::Obj(o) => forall|i: int| 0 <= i < o@.len() ==> wf_json(#[trigger] o@[i].1),
        _ => true,
    }
}

impl JsonValue {
    /// A copy of the tree with the same shape.
    #[verifier::loop_isolation(false)]
    pub fn clone_value(&self) -> (r: JsonValue)
        ensures
            r@ == self@,
        decreases *self,
    {
        match self {
            JsonValue::Null => JsonValue::Null,
            JsonValue::Bool(b) => JsonValue::Bool(*b),
            JsonValue::Num(s) => JsonValue::Num(s.clone()),
            JsonValue::Str(s) => JsonValue::Str(s.clone()),
            JsonValue::Arr(a) => {
                let mut out: Vec<JsonValue> = Vec::new();
                let mut i: usize = 0;
                while i < a.len()
                    invariant
                        i <= a.len(),
                        out@.len() == i,
                        forall|k: int| 0 <= k < i ==> (#[trigger] out@[k])@ == a@[k]@,
                    decreases a.len() - i,
                {
                    let e = a[i].clone_value();
                    out.push(e);
                    i = i + 1;
                }
                proof {
                    lemma_arr_view(out@);
                    lemma_arr_view(a@);
                    assert(arr_view(out@) =~= arr_view(a@));
                }
                JsonValue::Arr(out)
            },
            JsonValue::Obj(o) => {
                let mut out: Vec<(String, JsonValue)> = Vec::new();
                let mut i: usize = 0;
                while i < o.len()
                    invariant
                        i <= o.len(),
                        out@.len() == i,
                        forall|k: int|
                            0 <= k < i ==> (#[trigger] out@[k]).0@ == o@[k].0@ && out@[k].1@
                                == o@[k].1@,
                    decreases o.len() - i,
                {
                    let key = o[i].0.clone();
                    let val = o[i].1.clone_value();
                    out.push((key, val));
                    i = i + 1;
                }
                proof {
                    lemma_obj_view(out@);
                    lemma_obj_view(o@);
                    assert(obj_view(out@) =~= obj_view(o@));
                }
                JsonValue::Obj(out)
            },
        }
    }
}

} // verus!
