//! The values that properties hold.

use crate::error::GraphError;
use crate::graph_info::data_type::DataType;
use vstd::prelude::*;
use vstd::string::*;

verus! {

/// A value of a property. A floating-point number is held by its bits, as
/// `to_bits` gives them.
#[derive(Debug)]
pub enum Value {
    Bool(bool),
    Int32(i32),
    Int64(i64),
    Float32(u32),
    Float64(u64),
    String(String),
    List(Vec<Value>),
}

/// What a value is, as a mathematical value.
pub enum ValueView {
    Bool(bool),
    Int32(i32),
    Int64(i64),
    Float32(u32),
    Float64(u64),
    String(Seq<char>),
    List(Seq<ValueView>),
}

/// The mathematical value of a value.
pub open spec fn value_view(v: Value) -> ValueView
    decreases v,
{
    match v {
        Value::Bool(b) => ValueView::Bool(b),
        Value::Int32(n) => ValueView::Int32(n),
        Value::Int64(n) => ValueView::Int64(n),
        Value::Float32(bits) => ValueView::Float32(bits),
        Value::Float64(bits) => ValueView::Float64(bits),
        Value::String(s) => ValueView::String(s@),
        Value::List(items) => ValueView::List(values_view(items@)),
    }
}

/// The mathematical values of a list of values, item by item.
pub open spec fn values_view(items: Seq<Value>) -> Seq<ValueView>
    decreases items,
{
    if items.len() == 0 {
        Seq::empty()
    } else {
        values_view(items.drop_last()).push(value_view(items.last()))
    }
}

/// `values_view` keeps the length and takes the view of each item.
pub proof fn lemma_values_view(items: Seq<Value>)
    ensures
        values_view(items).len() == items.len(),
        forall|k: int| 0 <= k < items.len() ==> (#[trigger] values_view(items)[k]) == value_view(items[k]),
    decreases items.len(),
{
    if items.len() > 0 {
        lemma_values_view(items.drop_last());
    }
}

impl DeepView for Value {
    type V = ValueView;

    open spec fn deep_view(&self) -> ValueView {
        value_view(*self)
    }
}

impl View for Value {
    type V = ValueView;

    open spec fn view(&self) -> ValueView {
        self.deep_view()
    }
}

/// Whether a value can stand under a declared type. A date is held as a
/// 32-bit integer and a timestamp as a 64-bit integer; a list has the type
/// `List(T)` when each of its items has the type `T`; nothing has the absent
/// type.
pub open spec fn value_has_type(v: ValueView, t: DataType) -> bool
    decreases v,
{
    match v {
        ValueView::Bool(_) => t is Bool,
        ValueView::Int32(_) => t is Int32 || t is Date,
        ValueView::Int64(_) => t is Int64 || t is Timestamp,
        ValueView::Float32(_) => t is Float32,
        ValueView::Float64(_) => t is Float64,
        ValueView::String(_) => t is String,
        ValueView::List(items) => t is List && forall|i: int|
            0 <= i < items.len() ==> value_has_type(#[trigger] items[i], *t->List_0),
    }
}

/// The view of a list is the list of the views of its items.
pub proof fn lemma_list_view(items: Vec<Value>)
    ensures
        Value::List(items)@ is List,
        Value::List(items)@->List_0.len() == items@.len(),
        Value::List(items)@->List_0 == items.deep_view(),
        forall|k: int|
            0 <= k < items@.len() ==> (#[trigger] Value::List(items)@->List_0[k]) == items@[k]@,
{
    lemma_values_view(items@);
    assert(Value::List(items)@->List_0 =~= items.deep_view());
}

impl Clone for Value {
    fn clone(&self) -> (r: Self)
        ensures
            r@ == self@,
        decreases self,
    {
        match self {
            Value::Bool(b) => Value::Bool(*b),
            Value::Int32(n) => Value::Int32(*n),
            Value::Int64(n) => Value::Int64(*n),
            Value::Float32(bits) => Value::Float32(*bits),
            Value::Float64(bits) => Value::Float64(*bits),
            Value::String(s) => Value::String(s.clone()),
            Value::List(items) => {
                let mut out: Vec<Value> = Vec::new();
                let mut i: usize = 0;
                while i < items.len()
                    invariant
                        0 <= i <= items@.len(),
                        out@.len() == i,
                        *self == Value::List(*items),
                        forall|k: int| 0 <= k < i ==> out@[k]@ == items@[k]@,
                    decreases items@.len() - i,
                {
                    assert(decreases_to!(self => self->List_0));
                    assert(decreases_to!(self->List_0 => self->List_0@));
                    assert(decreases_to!(self->List_0@ => self->List_0@[i as int]));
                    out.push(items[i].clone());
                    i += 1;
                }
                let r = Value::List(out);
                proof {
                    lemma_list_view(out);
                    lemma_list_view(*items);
                }
                assert(r@->List_0 =~= self@->List_0);
                r
            },
        }
    }
}

impl Value {
    /// Whether the value can stand under the declared type `t`.
    pub fn has_type(&self, t: &DataType) -> (r: bool)
        ensures
            r == value_has_type(self@, *t),
        decreases self,
    {
        match self {
            Value::Bool(_) => match t {
                DataType::Bool => true,
                _ => false,
            },
            Value::Int32(_) => match t {
                DataType::Int32 | DataType::Date => true,
                _ => false,
            },
            Value::Int64(_) => match t {
                DataType::Int64 | DataType::Timestamp => true,
                _ => false,
            },
            Value::Float32(_) => match t {
                DataType::Float32 => true,
                _ => false,
            },
            Value::Float64(_) => match t {
                DataType::Float64 => true,
                _ => false,
            },
            Value::String(_) => match t {
                DataType::String => true,
                _ => false,
            },
            Value::List(items) => {
                match t {
                    DataType::List(inner) => {
                        proof {
                            lemma_list_view(*items);
                        }
                        let mut i: usize = 0;
                        while i < items.len()
                            invariant
                                0 <= i <= items@.len(),
                                *self == Value::List(*items),
                                *t == DataType::List(*inner),
                                self@ is List,
                                self@->List_0.len() == items@.len(),
                                forall|k: int|
                                    0 <= k < items@.len() ==> (#[trigger] self@->List_0[k])
                                        == items@[k]@,
                                forall|k: int|
                                    0 <= k < i ==> value_has_type(
                                        #[trigger] self@->List_0[k],
                                        **inner,
                                    ),
                            decreases items@.len() - i,
                        {
                            assert(decreases_to!(self => self->List_0));
                            assert(decreases_to!(self->List_0 => self->List_0@));
                            assert(decreases_to!(self->List_0@ => self->List_0@[i as int]));
                            if !items[i].has_type(&**inner) {
                                assert(!value_has_type(self@->List_0[i as int], **inner));
                                return false;
                            }
                            i += 1;
                        }
                        true
                    },
                    _ => false,
                }
            },
        }
    }

    /// The boolean that the value holds; `TypeMismatchError` for another
    /// variant.
    pub fn as_bool(&self) -> (r: Result<bool, GraphError>)
        ensures
            r == (match self@ {
                ValueView::Bool(b) => Ok::<bool, GraphError>(b),
                _ => Err(GraphError::TypeMismatchError),
            }),
    {
        match self {
            Value::Bool(b) => Ok(*b),
            _ => Err(GraphError::TypeMismatchError),
        }
    }

    /// The 32-bit integer that the value holds; `TypeMismatchError` for
    /// another variant.
    pub fn as_i32(&self) -> (r: Result<i32, GraphError>)
        ensures
            r == (match self@ {
                ValueView::Int32(n) => Ok::<i32, GraphError>(n),
                _ => Err(GraphError::TypeMismatchError),
            }),
    {
        match self {
            Value::Int32(n) => Ok(*n),
            _ => Err(GraphError::TypeMismatchError),
        }
    }

    /// The 64-bit integer that the value holds; `TypeMismatchError` for
    /// another variant.
    pub fn as_i64(&self) -> (r: Result<i64, GraphError>)
        ensures
            r == (match self@ {
                ValueView::Int64(n) => Ok::<i64, GraphError>(n),
                _ => Err(GraphError::TypeMismatchError),
            }),
    {
        match self {
            Value::Int64(n) => Ok(*n),
            _ => Err(GraphError::TypeMismatchError),
        }
    }

    /// The bits of the 32-bit floating-point number that the value holds;
    /// `TypeMismatchError` for another variant.
    pub fn as_f32_bits(&self) -> (r: Result<u32, GraphError>)
        ensures
            r == (match self@ {
                ValueView::Float32(bits) => Ok::<u32, GraphError>(bits),
                _ => Err(GraphError::TypeMismatchError),
            }),
    {
        match self {
            Value::Float32(bits) => Ok(*bits),
            _ => Err(GraphError::TypeMismatchError),
        }
    }

    /// The bits of the 64-bit floating-point number that the value holds;
    /// `TypeMismatchError` for another variant.
    pub fn as_f64_bits(&self) -> (r: Result<u64, GraphError>)
        ensures
            r == (match self@ {
                ValueView::Float64(bits) => Ok::<u64, GraphError>(bits),
                _ => Err(GraphError::TypeMismatchError),
            }),
    {
        match self {
            Value::Float64(bits) => Ok(*bits),
            _ => Err(GraphError::TypeMismatchError),
        }
    }

    /// The text that the value holds; `TypeMismatchError` for another
    /// variant.
    pub fn as_string(&self) -> (r: Result<String, GraphError>)
        ensures
            match self@ {
                ValueView::String(s) => r is Ok && r->Ok_0@ == s,
                _ => r == Err::<String, GraphError>(GraphError::TypeMismatchError),
            },
    {
        match self {
            Value::String(s) => Ok(s.clone()),
            _ => Err(GraphError::TypeMismatchError),
        }
    }

    /// The items of the list that the value holds; `TypeMismatchError` for
    /// another variant.
    pub fn as_list(&self) -> (r: Result<Vec<Value>, GraphError>)
        ensures
            match self@ {
                ValueView::List(items) => r is Ok && r->Ok_0.deep_view() == items,
                _ => r == Err::<Vec<Value>, GraphError>(GraphError::TypeMismatchError),
            },
    {
        match self {
            Value::List(items) => {
                let out = items.clone();
                proof {
                    lemma_list_view(*items);
                }
                assert(out.deep_view() =~= items.deep_view());
                Ok(out)
            },
            _ => Err(GraphError::TypeMismatchError),
        }
    }
}

} // verus!


