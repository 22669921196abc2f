//! Structured values: what the header of an entry and the configuration of a
//! hook are made of.

use vstd::prelude::*;

verus! {

/// A structured value: a scalar, a list of values, or a table of named
/// values in the order in which they were entered.
#[derive(Debug)]
pub enum Value {
    String(String),
    Integer(i64),
    Boolean(bool),
    Array(Vec<Value>),
    Table(Vec<(String, Value)>),
}

/// What a field of a table holds: its name and its value.
pub ghost struct FieldView {
    pub name: Seq<char>,
    pub value: ValueView,
}

/// What a structured value holds.
pub ghost enum ValueView {
    String(Seq<char>),
    Integer(int),
    Boolean(bool),
    Array(Seq<ValueView>),
    Table(Seq<FieldView>),
}

impl View for Value {
    type V = ValueView;

    open spec fn view(&self) -> ValueView
        decreases self,
    {
        match self {
            Value::String(s) => ValueView::String(s@),
            Value::Integer(i) => ValueView::Integer(*i as int),
            Value::Boolean(b) => ValueView::Boolean(*b),
            Value::Array(items) => ValueView::Array(
                Seq::new(
                    items@.len(),
                    |i: int|
                        if 0 <= i < items@.len() {
                            items@[i]@
                        } else {
                            ValueView::Boolean(false)
                        },
                ),
            ),
            Value::Table(fields) => ValueView::Table(
                Seq::new(
                    fields@.len(),
                    |i: int|
                        if 0 <= i < fields@.len() {
                            FieldView { name: fields@[i].0@, value: fields@[i].1@ }
                        } else {
                            FieldView { name: Seq::empty(), value: ValueView::Boolean(false) }
                        },
                ),
            ),
        }
    }
}

impl Clone for Value {
    fn clone(&self) -> (r: Value)
        ensures
            r@ == self@,
        decreases self,
    {
        match self {
            Value::String(s) => Value::String(s.clone()),
            Value::Integer(i) => Value::Integer(*i),
            Value::Boolean(b) => Value::Boolean(*b),
            Value::Array(items) => {
                let mut out: Vec<Value> = Vec::new();
                let mut i: usize = 0;
                while i < items.len()
                    invariant
                        *self == Value::Array(*items),
                        i <= items.len(),
                        out.len() == i,
                        forall|j: int| 0 <= j < i ==> out@[j]@ == items@[j]@,
                    decreases items.len() - i,
                {
                    assert(decreases_to!(self->Array_0@ => self->Array_0@[i as int]));
                    out.push(items[i].clone());
                    i = i + 1;
                }
                let r = Value::Array(out);
                assert(r@->Array_0 =~= self@->Array_0);
                r
            },
            Value::Table(fields) => {
                let mut out: Vec<(String, Value)> = Vec::new();
                let mut i: usize = 0;
                while i < fields.len()
                    invariant
                        *self == Value::Table(*fields),
                        i <= fields.len(),
                        out.len() == i,
                        forall|j: int|
                            0 <= j < i ==> out@[j].0@ == fields@[j].0@ && out@[j].1@
                                == fields@[j].1@,
                    decreases fields.len() - i,
                {
                    assert(decreases_to!(self->Table_0@[i as int] => self->Table_0@[i as int].1));
                    out.push((fields[i].0.clone(), fields[i].1.clone()));
                    i = i + 1;
                }
                let r = Value::Table(out);
                assert(r@->Table_0 =~= self@->Table_0);
                r
            },
        }
    }
}

/// The fields of a table, as its view has them.
pub open spec fn fields_view(fields: Seq<(String, Value)>) -> Seq<FieldView> {
    Seq::new(fields.len(), |i: int| FieldView { name: fields[i].0@, value: fields[i].1@ })
}

/// The view of a table holds the views of its fields, in order.
pub proof fn lemma_table_view(fields: Vec<(String, Value)>)
    ensures
        Value::Table(fields)@ == ValueView::Table(fields_view(fields@)),
{
    let v = Value::Table(fields);
    assert(v@->Table_0 =~= fields_view(fields@));
}

impl Value {
    /// The table without fields.
    pub fn empty_table() -> (v: Value)
        ensures
            v@ == ValueView::Table(Seq::empty()),
    {
        let v = Value::Table(Vec::new());
        assert(v@->Table_0 =~= Seq::empty());
        v
    }
}

} // verus!
