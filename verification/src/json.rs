//! JSON-like values: what a directive argument, a default value or constant
//! data holds.

use vstd::prelude::*;
use crate::model::{deep, lemma_deep_push};

verus! {

/// A number that is not a whole number in the range of `i64` is kept as the
/// text it was written as.
#[derive(Debug, PartialEq, Eq)]
pub enum Value {
    Null,
    Bool(bool),
    Int(i64),
    Number(String),
    String(String),
    List(Vec<Value>),
    Object(Vec<(String, Value)>),
}

pub enum ValueView {
    Null,
    Bool(bool),
    Int(int),
    Number(Seq<char>),
    String(Seq<char>),
    List(Seq<ValueView>),
    Object(Seq<(Seq<char>, ValueView)>),
}

/// The model of a value: the same tree over mathematical sequences.
pub open spec fn model_of(value: Value) -> ValueView
    decreases value,
{
    match value {
        Value::Null => ValueView::Null,
        Value::Bool(b) => ValueView::Bool(b),
        Value::Int(n) => ValueView::Int(n as int),
        Value::Number(text) => ValueView::Number(text@),
        Value::String(text) => ValueView::String(text@),
        Value::List(items) => ValueView::List(
            Seq::new(
                items@.len(),
                |i: int|
                    if 0 <= i < items@.len() {
                        model_of(items@[i])
                    } else {
                        ValueView::Null
                    },
            ),
        ),
        Value::Object(members) => ValueView::Object(
            Seq::new(
                members@.len(),
                |i: int|
                    if 0 <= i < members@.len() {
                        (members@[i].0@, model_of(members@[i].1))
                    } else {
                        (Seq::empty(), ValueView::Null)
                    },
            ),
        ),
    }
}

impl DeepView for Value {
    type V = ValueView;

    open spec fn deep_view(&self) -> ValueView {
        model_of(*self)
    }
}

impl View for Value {
    type V = ValueView;

    open spec fn view(&self) -> ValueView {
        model_of(*self)
    }
}

impl Value {
    /// What a list value holds is the models of its items.
    pub proof fn lemma_list_view(items: Vec<Value>)
        ensures
            Value::List(items)@ == ValueView::List(deep(items@)),
    {
        assert(Value::List(items)@->List_0 =~= deep(items@));
    }

    /// What an object value holds is its members, each name with the model of
    /// its value.
    pub proof fn lemma_object_view(members: Vec<(String, Value)>)
        ensures
            Value::Object(members)@ == ValueView::Object(deep(members@)),
    {
        let held = Value::Object(members)@->Object_0;
        assert forall|i: int| 0 <= i < members@.len() implies held[i] == deep(members@)[i] by {
            assert(deep(members@)[i] == members@[i].deep_view());
        }
        assert(held =~= deep(members@));
    }

    /// A deep copy.
    #[verifier::loop_isolation(false)]
    pub fn copy(&self) -> (r: Value)
        ensures
            r@ == self@,
        decreases self,
    {
        match self {
            Value::Null => Value::Null,
            Value::Bool(b) => Value::Bool(*b),
            Value::Int(n) => Value::Int(*n),
            Value::Number(text) => Value::Number(text.clone()),
            Value::String(text) => Value::String(text.clone()),
            Value::List(items) => {
                let mut out: Vec<Value> = Vec::new();
                let mut i: usize = 0;
                while i < items.len()
                    invariant
                        i <= items.len(),
                        deep(out@) == deep(items@).take(i as int),
                    decreases items.len() - i,
                {
                    let ghost before = out@;
                    proof {
                        vstd::std_specs::vec::axiom_vec_index_decreases(*items, i as int);
                    }
                    let item = items[i].copy();
                    out.push(item);
                    proof {
                        lemma_deep_push(before, item);
                        assert(deep(out@) =~= deep(items@).take(i as int + 1));
                    }
                    i += 1;
                }
                proof {
                    assert(deep(items@).take(items.len() as int) =~= deep(items@));
                    Value::lemma_list_view(out);
                    Value::lemma_list_view(*items);
                }
                Value::List(out)
            },
            Value::Object(members) => {
                let mut out: Vec<(String, Value)> = Vec::new();
                let mut i: usize = 0;
                while i < members.len()
                    invariant
                        i <= members.len(),
                        deep(out@) == deep(members@).take(i as int),
                    decreases members.len() - i,
                {
                    let ghost before = out@;
                    proof {
                        vstd::std_specs::vec::axiom_vec_index_decreases(*members, i as int);
                    }
                    let member = (members[i].0.clone(), members[i].1.copy());
                    out.push(member);
                    proof {
                        lemma_deep_push(before, member);
                        assert(deep(out@) =~= deep(members@).take(i as int + 1));
                    }
                    i += 1;
                }
                proof {
                    assert(deep(members@).take(members.len() as int) =~= deep(members@));
                    Value::lemma_object_view(out);
                    Value::lemma_object_view(*members);
                }
                Value::Object(out)
            },
        }
    }
}

impl Clone for Value {
    fn clone(&self) -> (r: Self)
        ensures
            r@ == self@,
    {
        self.copy()
    }
}

} // verus!
