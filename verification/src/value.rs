//! Script values and their mathematical model.

use vstd::prelude::*;

verus! {

/// A value as a script sees it.
#[derive(Debug, PartialEq, Eq)]
pub enum Value {
    Undefined,
    Null,
    Boolean(bool),
    Number(i32),
    Text(String),
    Array(Vec<Value>),
    /// A reference to an object of the runtime's heap.
    Object(usize),
}

/// What a [`Value`] denotes: text as a sequence of characters, an array as a
/// sequence of denotations.
pub enum ValueModel {
    Undefined,
    Null,
    Boolean(bool),
    Number(i32),
    Text(Seq<char>),
    Array(Seq<ValueModel>),
    Object(usize),
}

impl View for Value {
    type V = ValueModel;

    open spec fn view(&self) -> ValueModel
        decreases self,
    {
        match self {
            Value::Undefined => ValueModel::Undefined,
            Value::Null => ValueModel::Null,
            Value::Boolean(b) => ValueModel::Boolean(*b),
            Value::Number(n) => ValueModel::Number(*n),
            Value::Text(s) => ValueModel::Text(s@),
            Value::Array(items) => ValueModel::Array(
                Seq::new(
                    items@.len(),
                    |i: int|
                        if 0 <= i < items@.len() {
                            items@[i].view()
                        } else {
                            ValueModel::Undefined
                        },
                ),
            ),
            Value::Object(h) => ValueModel::Object(*h),
        }
    }
}

/// The denotations of a sequence of values, in order.
pub open spec fn models(items: Seq<Value>) -> Seq<ValueModel> {
    Seq::new(items.len(), |i: int| items[i]@)
}

/// An array denotes the denotations of its items.
pub proof fn lemma_array_view(items: Vec<Value>)
    ensures
        Value::Array(items)@ == ValueModel::Array(models(items@)),
{
    reveal_with_fuel(<Value as View>::view, 2);
    assert(Value::Array(items)@->Array_0 =~= models(items@));
}

impl Value {
    /// A copy of this value that denotes the same.
    pub fn duplicate(&self) -> (copy: Value)
        ensures
            copy@ == self@,
        decreases self,
    {
        match self {
            Value::Undefined => Value::Undefined,
            Value::Null => Value::Null,
            Value::Boolean(b) => Value::Boolean(*b),
            Value::Number(n) => Value::Number(*n),
            Value::Text(s) => Value::Text(s.clone()),
            Value::Array(items) => {
                let mut copies: Vec<Value> = Vec::new();
                let mut i: usize = 0;
                while i < items.len()
                    invariant
                        *self == Value::Array(*items),
                        i <= items.len(),
                        copies@.len() == i,
                        forall|j: int| 0 <= j < i ==> copies@[j]@ == items@[j]@,
                    decreases items.len() - i,
                {
                    proof {
                        assert(decreases_to!(*self => self->Array_0));
                        assert(decreases_to!(self->Array_0 => self->Array_0[i as int]));
                    }
                    let copy = items[i].duplicate();
                    copies.push(copy);
                    i += 1;
                }
                proof {
                    lemma_array_view(copies);
                    lemma_array_view(*items);
                    assert(models(copies@) =~= models(items@));
                }
                Value::Array(copies)
            },
            Value::Object(h) => Value::Object(*h),
        }
    }
}

} // verus!
