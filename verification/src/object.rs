//! The free-form object: a recursively typed value isomorphic to a JSON
//! object. Numbers are carried as their literal decimal text, so the value
//! round-trips through both wires without loss.
use vstd::prelude::*;

verus! {

/// The view of a free-form value.
pub ghost enum JsonV {
    Null,
    Bool(bool),
    Num(Seq<char>),
    Str(Seq<char>),
    Arr(Seq<JsonV>),
    Obj(Seq<(Seq<char>, JsonV)>),
}

/// The characters a number literal may consist of.
pub open spec fn is_number_char(c: char) -> bool {
    ('0' <= c <= '9') || c == '-' || c == '+' || c == '.' || c == 'e' || c == 'E'
}

/// A number literal the textual wire can carry back and forth unchanged:
/// non-empty, made of number characters, opening with a sign or a digit.
pub open spec fn is_number_text(s: Seq<char>) -> bool {
    &&& s.len() > 0
    &&& (s[0] == '-' || '0' <= s[0] <= '9')
    &&& forall|i: int| 0 <= i < s.len() ==> is_number_char(#[trigger] s[i])
}

impl JsonV {
    /// A value both wires can carry: every number literal in it is sound.
    pub open spec fn wf(self) -> bool
        decreases self,
    {
        match self {
            JsonV::Null => true,
            JsonV::Bool(_) => true,
            JsonV::Num(s) => is_number_text(s),
            JsonV::Str(_) => true,
            JsonV::Arr(items) => forall|i: int|
                0 <= i < items.len() ==> (#[trigger] items[i]).wf(),
            JsonV::Obj(fields) => forall|i: int|
                0 <= i < fields.len() ==> (#[trigger] fields[i]).1.wf(),
        }
    }
}

/// A free-form value: null, a boolean, a number (as literal text), a
/// string, an array, or a nested object.
#[derive(Debug, PartialEq)]
pub enum JsonValue {
    Null,
    Bool(bool),
    Number(String),
    Str(String),
    Array(Vec<JsonValue>),
    Object(Object),
}

/// A free-form object: an ordered list of named values.
#[derive(Debug, PartialEq)]
pub struct Object {
    pub fields: Vec<(String, JsonValue)>,
}

/// The view of an object.
pub ghost struct ObjectV {
    pub fields: Seq<(Seq<char>, JsonV)>,
}

/// The view of a free-form value.
pub open spec fn jv_view(v: JsonValue) -> JsonV
    decreases v, 1int,
{
    match v {
        JsonValue::Null => JsonV::Null,
        JsonValue::Bool(b) => JsonV::Bool(b),
        JsonValue::Number(s) => JsonV::Num(s@),
        JsonValue::Str(s) => JsonV::Str(s@),
        JsonValue::Array(items) => JsonV::Arr(jv_seq_view(items@)),
        JsonValue::Object(o) => JsonV::Obj(jv_fields_view(o.fields@)),
    }
}

/// The views of a sequence of values.
pub open spec fn jv_seq_view(s: Seq<JsonValue>) -> Seq<JsonV>
    decreases s, 0int,
{
    if s.len() == 0 {
        Seq::empty()
    } else {
        jv_seq_view(s.drop_last()).push(jv_view(s.last()))
    }
}

/// The views of a sequence of named values.
pub open spec fn jv_fields_view(s: Seq<(String, JsonValue)>) -> Seq<(Seq<char>, JsonV)>
    decreases s, 0int,
{
    if s.len() == 0 {
        Seq::empty()
    } else {
        jv_fields_view(s.drop_last()).push((s.last().0@, jv_view(s.last().1)))
    }
}

pub broadcast proof fn lemma_jv_seq_view(s: Seq<JsonValue>)
    ensures
        (#[trigger] jv_seq_view(s)).len() == s.len(),
        forall|i: int| 0 <= i < s.len() ==> jv_seq_view(s)[i] == jv_view(s[i]),
    decreases s,
{
    if s.len() > 0 {
        lemma_jv_seq_view(s.drop_last());
    }
}

pub broadcast proof fn lemma_jv_fields_view(s: Seq<(String, JsonValue)>)
    ensures
        (#[trigger] jv_fields_view(s)).len() == s.len(),
        forall|i: int|
            0 <= i < s.len() ==> jv_fields_view(s)[i] == (s[i].0@, jv_view(s[i].1)),
    decreases s,
{
    if s.len() > 0 {
        lemma_jv_fields_view(s.drop_last());
    }
}

impl View for JsonValue {
    type V = JsonV;

    open spec fn view(&self) -> JsonV {
        jv_view(*self)
    }
}

impl View for Object {
    type V = ObjectV;

    open spec fn view(&self) -> ObjectV {
        ObjectV { fields: jv_fields_view(self.fields@) }
    }
}

impl ObjectV {
    /// An object both wires can carry.
    pub open spec fn wf(self) -> bool {
        JsonV::Obj(self.fields).wf()
    }
}

impl Object {
    /// The object with no fields.
    pub fn empty() -> (r: Object)
        ensures
            r@.fields == Seq::<(Seq<char>, JsonV)>::empty(),
    {
        Object { fields: Vec::new() }
    }

    /// Whether the object has no fields.
    pub fn is_empty(&self) -> (r: bool)
        ensures
            r == (self@.fields.len() == 0),
    {
        proof {
            broadcast use lemma_jv_fields_view;

        }
        self.fields.len() == 0
    }

    /// An exact copy of the object.
    pub fn dup(&self) -> (r: Object)
        ensures
            r@ == self@,
        decreases *self,
    {
        proof {
            assert(decreases_to!(*self => self.fields));
        }
        Object { fields: dup_fields(&self.fields) }
    }
}

impl JsonValue {
    /// An exact copy of the value.
    pub fn dup(&self) -> (r: JsonValue)
        ensures
            r@ == self@,
        decreases *self,
    {
        match self {
            JsonValue::Null => JsonValue::Null,
            JsonValue::Bool(b) => JsonValue::Bool(*b),
            JsonValue::Number(s) => JsonValue::Number(s.clone()),
            JsonValue::Str(s) => JsonValue::Str(s.clone()),
            JsonValue::Array(items) => JsonValue::Array(dup_values(items)),
            JsonValue::Object(o) => JsonValue::Object(o.dup()),
        }
    }
}

impl Clone for JsonValue {
    fn clone(&self) -> (r: JsonValue)
        ensures
            r@ == self@,
    {
        self.dup()
    }
}

impl Clone for Object {
    fn clone(&self) -> (r: Object)
        ensures
            r@ == self@,
    {
        self.dup()
    }
}

/// An exact copy of a list of values.
fn dup_values(items: &Vec<JsonValue>) -> (r: Vec<JsonValue>)
    ensures
        jv_seq_view(r@) == jv_seq_view(items@),
    decreases *items,
{
    proof {
        broadcast use lemma_jv_seq_view;

    }
    let mut out: Vec<JsonValue> = Vec::new();
    let n = items.len();
    let mut i: usize = 0;
    while i < n
        invariant
            n == items.len(),
            i <= n,
            out@.len() == i,
            forall|k: int| 0 <= k < i ==> jv_view(out@[k]) == jv_view(items@[k]),
        decreases n - i,
    {
        proof {
            assert(decreases_to!(*items => items@));
            assert(decreases_to!(items@ => items@[i as int]));
        }
        let d = items[i].dup();
        out.push(d);
        i += 1;
    }
    proof {
        broadcast use lemma_jv_seq_view;

        assert(jv_seq_view(out@) =~= jv_seq_view(items@));
    }
    out
}

/// An exact copy of a list of named values.
fn dup_fields(fields: &Vec<(String, JsonValue)>) -> (r: Vec<(String, JsonValue)>)
    ensures
        jv_fields_view(r@) == jv_fields_view(fields@),
    decreases *fields,
{
    proof {
        broadcast use lemma_jv_fields_view;

    }
    let mut out: Vec<(String, JsonValue)> = Vec::new();
    let n = fields.len();
    let mut i: usize = 0;
    while i < n
        invariant
            n == fields.len(),
            i <= n,
            out@.len() == i,
            forall|k: int| 0 <= k < i
                ==> out@[k].0@ == fields@[k].0@ && jv_view(out@[k].1) == jv_view(fields@[k].1),
        decreases n - i,
    {
        proof {
            assert(decreases_to!(*fields => fields@));
            assert(decreases_to!(fields@ => fields@[i as int]));
            assert(decreases_to!(fields@[i as int] => fields@[i as int].1));
        }
        let key = fields[i].0.clone();
        let val = fields[i].1.dup();
        out.push((key, val));
        i += 1;
    }
    proof {
        broadcast use lemma_jv_fields_view;

        assert(jv_fields_view(out@) =~= jv_fields_view(fields@));
    }
    out
}

} // verus!
