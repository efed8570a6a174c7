//! The records that a producer fills: the properties of one vertex, and the
//! endpoints and properties of one edge.

use crate::chunk::{Record, RecordView};
use crate::value::{Value, ValueView};
use vstd::prelude::*;
use vstd::string::*;

verus! {

/// The properties of one vertex that is to be written.
#[derive(Debug)]
pub struct VertexBuilder {
    record: Record,
}

impl View for VertexBuilder {
    type V = RecordView;

    closed spec fn view(&self) -> RecordView {
        self.record@
    }
}

impl DeepView for VertexBuilder {
    type V = RecordView;

    open spec fn deep_view(&self) -> RecordView {
        self@
    }
}

impl Default for VertexBuilder {
    fn default() -> (r: Self)
        ensures
            r@ == Map::<Seq<char>, ValueView>::empty(),
    {
        Self::new()
    }
}

impl VertexBuilder {
    /// A vertex without properties.
    pub fn new() -> (r: Self)
        ensures
            r@ == Map::<Seq<char>, ValueView>::empty(),
    {
        VertexBuilder { record: Record::new() }
    }

    /// Sets the property `name` to the given value, replacing an earlier
    /// value. Nothing is checked against a schema here.
    pub fn add_property<T>(&mut self, name: String, property: T) where (): SupportedDataType<T>
        ensures
            final(self)@ == old(self)@.insert(name@, <() as SupportedDataType<T>>::value_of(property)),
    {
        <() as SupportedDataType<T>>::vertex_add_property(self, name.as_str(), property);
    }

    /// Sets the property `name` to `value`, replacing an earlier value.
    pub fn set(&mut self, name: &str, value: Value)
        ensures
            final(self)@ == old(self)@.insert(name@, value@),
    {
        self.record.insert(name.to_owned(), value);
    }

    /// The record of the vertex, borrowed.
    pub fn record(&self) -> (r: &Record)
        ensures
            r@ == self@,
    {
        &self.record
    }
}

/// The endpoints and the properties of one edge that is to be written.
#[derive(Debug)]
pub struct EdgeBuilder {
    src_id: i64,
    dst_id: i64,
    record: Record,
}

/// What an edge is, as a mathematical value.
pub struct EdgeView {
    pub src: i64,
    pub dst: i64,
    pub properties: RecordView,
}

impl View for EdgeBuilder {
    type V = EdgeView;

    closed spec fn view(&self) -> EdgeView {
        EdgeView { src: self.src_id, dst: self.dst_id, properties: self.record@ }
    }
}

impl DeepView for EdgeBuilder {
    type V = EdgeView;

    open spec fn deep_view(&self) -> EdgeView {
        self@
    }
}

impl EdgeBuilder {
    /// An edge from `src_id` to `dst_id` without properties.
    pub fn new(src_id: i64, dst_id: i64) -> (r: Self)
        ensures
            r@ == (EdgeView {
                src: src_id,
                dst: dst_id,
                properties: Map::<Seq<char>, ValueView>::empty(),
            }),
    {
        EdgeBuilder { src_id, dst_id, record: Record::new() }
    }

    /// Sets the property `name` to the given value, replacing an earlier
    /// value. Nothing is checked against a schema here.
    pub fn add_property<T>(&mut self, name: String, property: T) where (): SupportedDataType<T>
        ensures
            final(self)@ == (EdgeView {
                properties: old(self)@.properties.insert(
                    name@,
                    <() as SupportedDataType<T>>::value_of(property),
                ),
                ..old(self)@
            }),
    {
        <() as SupportedDataType<T>>::edge_add_property(self, name.as_str(), property);
    }

    /// Sets the property `name` to `value`, replacing an earlier value.
    pub fn set(&mut self, name: &str, value: Value)
        ensures
            final(self)@ == (EdgeView {
                properties: old(self)@.properties.insert(name@, value@),
                ..old(self)@
            }),
    {
        self.record.insert(name.to_owned(), value);
    }

    /// The id of the source vertex.
    pub fn src_id(&self) -> (r: i64)
        ensures
            r == self@.src,
    {
        self.src_id
    }

    /// The id of the destination vertex.
    pub fn dst_id(&self) -> (r: i64)
        ensures
            r == self@.dst,
    {
        self.dst_id
    }

    /// The properties of the edge, borrowed.
    pub fn record(&self) -> (r: &Record)
        ensures
            r@ == self@.properties,
    {
        &self.record
    }
}

/// The types whose values a record takes: for each, the value that stands
/// for it, and how it is set on a vertex and on an edge.
pub trait SupportedDataType<T> {
    /// The value that stands for `val`.
    spec fn value_of(val: T) -> ValueView;

    /// Makes the value that stands for `val`.
    fn into_value(val: T) -> (v: Value)
        ensures
            v@ == Self::value_of(val),
    ;

    fn vertex_add_property(vertex: &mut VertexBuilder, name: &str, val: T)
        ensures
            final(vertex)@ == old(vertex)@.insert(name@, Self::value_of(val)),
    ;

    fn edge_add_property(edge: &mut EdgeBuilder, name: &str, val: T)
        ensures
            final(edge)@ == (EdgeView {
                properties: old(edge)@.properties.insert(name@, Self::value_of(val)),
                ..old(edge)@
            }),
    ;
}

impl SupportedDataType<bool> for () {
    open spec fn value_of(val: bool) -> ValueView {
        ValueView::Bool(val)
    }

    fn into_value(val: bool) -> (v: Value) {
        Value::Bool(val)
    }

    fn vertex_add_property(vertex: &mut VertexBuilder, name: &str, val: bool) {
        vertex.set(name, Value::Bool(val));
    }

    fn edge_add_property(edge: &mut EdgeBuilder, name: &str, val: bool) {
        edge.set(name, Value::Bool(val));
    }
}

impl SupportedDataType<i32> for () {
    open spec fn value_of(val: i32) -> ValueView {
        ValueView::Int32(val)
    }

    fn into_value(val: i32) -> (v: Value) {
        Value::Int32(val)
    }

    fn vertex_add_property(vertex: &mut VertexBuilder, name: &str, val: i32) {
        vertex.set(name, Value::Int32(val));
    }

    fn edge_add_property(edge: &mut EdgeBuilder, name: &str, val: i32) {
        edge.set(name, Value::Int32(val));
    }
}

impl SupportedDataType<i64> for () {
    open spec fn value_of(val: i64) -> ValueView {
        ValueView::Int64(val)
    }

    fn into_value(val: i64) -> (v: Value) {
        Value::Int64(val)
    }

    fn vertex_add_property(vertex: &mut VertexBuilder, name: &str, val: i64) {
        vertex.set(name, Value::Int64(val));
    }

    fn edge_add_property(edge: &mut EdgeBuilder, name: &str, val: i64) {
        edge.set(name, Value::Int64(val));
    }
}

impl SupportedDataType<String> for () {
    open spec fn value_of(val: String) -> ValueView {
        ValueView::String(val@)
    }

    fn into_value(val: String) -> (v: Value) {
        Value::String(val)
    }

    fn vertex_add_property(vertex: &mut VertexBuilder, name: &str, val: String) {
        vertex.set(name, Value::String(val));
    }

    fn edge_add_property(edge: &mut EdgeBuilder, name: &str, val: String) {
        edge.set(name, Value::String(val));
    }
}

impl SupportedDataType<Value> for () {
    open spec fn value_of(val: Value) -> ValueView {
        val@
    }

    fn into_value(val: Value) -> (v: Value) {
        val
    }

    fn vertex_add_property(vertex: &mut VertexBuilder, name: &str, val: Value) {
        vertex.set(name, val);
    }

    fn edge_add_property(edge: &mut EdgeBuilder, name: &str, val: Value) {
        edge.set(name, val);
    }
}


/// The values that stand for the items of a list, item by item.
pub open spec fn values_of<T>(items: Seq<T>) -> Seq<ValueView> where (): SupportedDataType<T> {
    Seq::new(items.len(), |i: int| <() as SupportedDataType<T>>::value_of(items[i]))
}

fn into_values<T>(items: Vec<T>) -> (out: Vec<Value>) where (): SupportedDataType<T>
    ensures
        out.deep_view() == values_of::<T>(items@),
{
    let ghost all = items@;
    let mut items = items;
    let mut reversed: Vec<Value> = Vec::new();
    while items.len() > 0
        invariant
            items@.len() + reversed@.len() == all.len(),
            items@ == all.take(items@.len() as int),
            forall|k: int|
                0 <= k < reversed@.len() ==> (#[trigger] reversed@[k])@ == <() as SupportedDataType<
                    T,
                >>::value_of(all[all.len() - 1 - k]),
        decreases items@.len(),
    {
        let ghost before = items@;
        match items.pop() {
            Some(item) => {
                assert(item == all[before.len() - 1]);
                assert(items@ =~= all.take(items@.len() as int));
                reversed.push(<() as SupportedDataType<T>>::into_value(item));
            },
            None => {},
        }
    }
    let mut out: Vec<Value> = Vec::new();
    while reversed.len() > 0
        invariant
            reversed@.len() + out@.len() == all.len(),
            forall|k: int|
                0 <= k < reversed@.len() ==> (#[trigger] reversed@[k])@ == <() as SupportedDataType<
                    T,
                >>::value_of(all[all.len() - 1 - k]),
            forall|k: int|
                0 <= k < out@.len() ==> (#[trigger] out@[k])@ == <() as SupportedDataType<
                    T,
                >>::value_of(all[k]),
        decreases reversed@.len(),
    {
        match reversed.pop() {
            Some(value) => {
                out.push(value);
            },
            None => {},
        }
    }
    assert(out.deep_view() =~= values_of::<T>(all));
    out
}

impl<T> SupportedDataType<Vec<T>> for () where (): SupportedDataType<T> {
    open spec fn value_of(val: Vec<T>) -> ValueView {
        ValueView::List(values_of::<T>(val@))
    }

    fn into_value(val: Vec<T>) -> (v: Value) {
        let items = into_values::<T>(val);
        proof {
            crate::value::lemma_list_view(items);
        }
        Value::List(items)
    }

    fn vertex_add_property(vertex: &mut VertexBuilder, name: &str, val: Vec<T>) {
        let value = <() as SupportedDataType<Vec<T>>>::into_value(val);
        vertex.set(name, value);
    }

    fn edge_add_property(edge: &mut EdgeBuilder, name: &str, val: Vec<T>) {
        let value = <() as SupportedDataType<Vec<T>>>::into_value(val);
        edge.set(name, value);
    }
}

} // verus!
