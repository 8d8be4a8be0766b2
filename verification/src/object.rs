//! The runtime value model: a tagged value (integer, boolean, string, null)
//! together with the variants the broader tree-walking evaluator reserves
//! (arrays, return wrappers, errors, functions, builtins), which this
//! bytecode core carries but never produces or consumes.

use vstd::prelude::*;

use crate::ast::BlockStatement;

verus! {

/// A 128-bit signed integer value.
#[derive(PartialEq, Eq, Structural, PartialOrd, Ord, Copy, Clone, Debug, Hash)]
pub struct Integer {
    pub value: i128,
}

/// A boolean value. The machine treats the two values as singletons: they
/// are emitted directly as `TRUE`/`FALSE` instructions, never pooled.
#[derive(PartialEq, Eq, Structural, PartialOrd, Ord, Copy, Clone, Debug, Hash)]
pub struct Boolean {
    pub value: bool,
}

/// An owned text value with value equality.
#[derive(PartialEq, Eq, PartialOrd, Ord, Clone, Debug, Hash)]
pub struct MString {
    pub value: String,
}

/// An array of values; reserved for the evaluator, outside this core.
#[derive(PartialEq, Eq, Debug)]
pub struct MArray {
    pub elements: Vec<MObject>,
}

/// A wrapped early-return value; reserved for the evaluator.
#[derive(PartialEq, Eq, Debug)]
pub struct ReturnValue {
    pub value: Box<MObject>,
}

/// An error value; reserved for the evaluator.
#[derive(PartialEq, Eq, PartialOrd, Ord, Clone, Debug, Hash)]
pub struct MError {
    pub value: String,
}

/// A user-defined function value; reserved for the evaluator.
#[derive(PartialEq, Eq, Clone, Debug)]
pub struct Function {
    pub params: Vec<String>,
    pub body: BlockStatement,
}

/// A built-in function value, named; reserved for the evaluator.
#[derive(PartialEq, Eq, PartialOrd, Ord, Clone, Debug, Hash)]
pub struct Builtin {
    pub name: String,
}

/// A runtime value.
#[derive(PartialEq, Eq, Debug)]
pub enum MObject {
    Int(Integer),
    Bool(Boolean),
    Str(MString),
    Array(MArray),
    Return(ReturnValue),
    Error(MError),
    Fn(Function),
    Builtin(Builtin),
    Null,
}

/// The mathematical shape of a runtime value. The variants this core
/// produces and consumes (integers, booleans, strings, null) are carried
/// exactly; values reserved for the evaluator keep only as much shape as
/// their plain fields give (functions are opaque here).
pub enum Obj {
    Int(i128),
    Bool(bool),
    Str(Seq<char>),
    Array(Seq<Obj>),
    Return(Box<Obj>),
    Error(Seq<char>),
    Fn,
    Builtin(Seq<char>),
    Null,
}

/// The model of a value.
pub open spec fn obj_view(o: MObject) -> Obj
    decreases o,
{
    match o {
        MObject::Int(i) => Obj::Int(i.value),
        MObject::Bool(b) => Obj::Bool(b.value),
        MObject::Str(s) => Obj::Str(s.value@),
        MObject::Array(a) => Obj::Array(objs_view(a.elements@)),
        MObject::Return(r) => Obj::Return(Box::new(obj_view(*r.value))),
        MObject::Error(e) => Obj::Error(e.value@),
        MObject::Fn(_) => Obj::Fn,
        MObject::Builtin(b) => Obj::Builtin(b.name@),
        MObject::Null => Obj::Null,
    }
}

/// The models of a sequence of values, elementwise.
pub open spec fn objs_view(s: Seq<MObject>) -> Seq<Obj>
    decreases s,
{
    if s.len() == 0 {
        Seq::empty()
    } else {
        objs_view(s.drop_last()).push(obj_view(s.last()))
    }
}

impl View for MObject {
    type V = Obj;

    open spec fn view(&self) -> Obj {
        obj_view(*self)
    }
}

/// The model of an optional value, elementwise.
pub open spec fn view_opt(o: Option<MObject>) -> Option<Obj> {
    match o {
        Some(x) => Some(x@),
        None => None,
    }
}

/// Elementwise description of `objs_view`.
pub broadcast proof fn lemma_objs_view_index(s: Seq<MObject>)
    ensures
        (#[trigger] objs_view(s)).len() == s.len(),
        forall|i: int| 0 <= i < s.len() ==> objs_view(s)[i] == s[i]@,
    decreases s,
{
    if s.len() > 0 {
        lemma_objs_view_index(s.drop_last());
    }
}

/// `objs_view` of a push is a push of the element's model.
pub proof fn lemma_objs_view_push(s: Seq<MObject>, o: MObject)
    ensures
        objs_view(s.push(o)) == objs_view(s).push(o@),
{
    lemma_objs_view_index(s);
    lemma_objs_view_index(s.push(o));
    assert(objs_view(s.push(o)) =~= objs_view(s).push(o@));
}

/// `objs_view` of a drop of the last element drops the last model.
pub proof fn lemma_objs_view_drop_last(s: Seq<MObject>)
    requires
        s.len() > 0,
    ensures
        objs_view(s.drop_last()) == objs_view(s).drop_last(),
        objs_view(s).last() == s.last()@,
{
    lemma_objs_view_index(s);
    lemma_objs_view_index(s.drop_last());
    assert(objs_view(s.drop_last()) =~= objs_view(s).drop_last());
}

/// `objs_view` of an update is an update with the element's model.
pub proof fn lemma_objs_view_update(s: Seq<MObject>, i: int, o: MObject)
    requires
        0 <= i < s.len(),
    ensures
        objs_view(s.update(i, o)) == objs_view(s).update(i, o@),
{
    lemma_objs_view_index(s);
    lemma_objs_view_index(s.update(i, o));
    assert(objs_view(s.update(i, o)) =~= objs_view(s).update(i, o@));
}

/// Two value sequences whose elements agree in model have the same model.
pub proof fn lemma_objs_view_congruent(a: Seq<MObject>, b: Seq<MObject>)
    requires
        a.len() == b.len(),
        forall|i: int| 0 <= i < a.len() ==> a[i]@ == b[i]@,
    ensures
        objs_view(a) == objs_view(b),
{
    lemma_objs_view_index(a);
    lemma_objs_view_index(b);
    assert(objs_view(a) =~= objs_view(b));
}

impl Clone for MObject {
    /// A copy that models the same value.
    fn clone(&self) -> (r: Self)
        ensures
            r@ == self@,
        decreases *self,
    {
        match self {
            MObject::Int(i) => MObject::Int(Integer { value: i.value }),
            MObject::Bool(b) => MObject::Bool(Boolean { value: b.value }),
            MObject::Str(s) => MObject::Str(MString { value: s.value.clone() }),
            MObject::Array(a) => MObject::Array(a.clone()),
            MObject::Return(r) => MObject::Return(r.clone()),
            MObject::Error(e) => MObject::Error(MError { value: e.value.clone() }),
            MObject::Fn(f) => MObject::Fn(
                Function { params: f.params.clone(), body: f.body.clone() },
            ),
            MObject::Builtin(b) => MObject::Builtin(Builtin { name: b.name.clone() }),
            MObject::Null => MObject::Null,
        }
    }
}

impl Clone for MArray {
    /// A copy whose elements model the originals.
    fn clone(&self) -> (r: Self)
        ensures
            objs_view(r.elements@) == objs_view(self.elements@),
        decreases *self,
    {
        let mut elements: Vec<MObject> = Vec::new();
        let mut k: usize = 0;
        while k < self.elements.len()
            invariant
                k <= self.elements@.len(),
                elements@.len() == k,
                forall|i: int| 0 <= i < k ==> elements@[i]@ == self.elements@[i]@,
            decreases self.elements@.len() - k,
        {
            elements.push(self.elements[k].clone());
            k += 1;
        }
        proof {
            lemma_objs_view_congruent(elements@, self.elements@);
        }
        MArray { elements }
    }
}

impl Clone for ReturnValue {
    /// A copy whose wrapped value models the original.
    fn clone(&self) -> (r: Self)
        ensures
            (*r.value)@ == (*self.value)@,
        decreases *self,
    {
        ReturnValue { value: Box::new((*self.value).clone()) }
    }
}

} // verus!
