//! The types as which a property's value can be read.

use crate::chunk::cell_view;
use crate::error::GraphError;
use crate::graph_info::data_type::DataType;
use crate::graph_info::property::{
    find_group, find_property, group_index, lemma_group_index, lemma_property_index, property_index,
    PropertyGroup, PropertyGroupView,
};
use crate::value::{Value, ValueView};
use vstd::prelude::*;
use vstd::string::*;

verus! {

/// The types as which a value can be read: for each, under which declared
/// types it reads, which values it takes, and what comes out.
pub trait SupportedPropertyType<T> {
    /// Whether the type reads properties that are declared with the type
    /// `t`.
    spec fn reads(t: DataType) -> bool;

    /// Whether the type reads properties that are declared with the type
    /// `t`.
    fn reads_type(t: &DataType) -> (r: bool)
        ensures
            r == Self::reads(*t),
    ;

    /// Whether `out` is what the value `v` holds.
    spec fn holds(v: ValueView, out: T) -> bool;

    /// Whether the value `v` has the variant that the type reads.
    spec fn accepts(v: ValueView) -> bool;

    /// Reads a value as the type. Fails with `TypeMismatchError` when the
    /// value has another variant.
    fn from_value(v: &Value) -> (r: Result<T, GraphError>)
        ensures
            Self::accepts(v@) ==> r is Ok && Self::holds(v@, r->Ok_0),
            !Self::accepts(v@) ==> r == Err::<T, GraphError>(GraphError::TypeMismatchError),
    ;
}

impl SupportedPropertyType<bool> for () {
    open spec fn reads(t: DataType) -> bool {
        t is Bool
    }

    fn reads_type(t: &DataType) -> (r: bool) {
        match t {
            DataType::Bool => true,
            _ => false,
        }
    }

    open spec fn holds(v: ValueView, out: bool) -> bool {
        v == ValueView::Bool(out)
    }

    open spec fn accepts(v: ValueView) -> bool {
        v is Bool
    }

    fn from_value(v: &Value) -> (r: Result<bool, GraphError>) {
        v.as_bool()
    }
}

impl SupportedPropertyType<i32> for () {
    open spec fn reads(t: DataType) -> bool {
        t is Int32 || t is Date
    }

    fn reads_type(t: &DataType) -> (r: bool) {
        match t {
            DataType::Int32 | DataType::Date => true,
            _ => false,
        }
    }

    open spec fn holds(v: ValueView, out: i32) -> bool {
        v == ValueView::Int32(out)
    }

    open spec fn accepts(v: ValueView) -> bool {
        v is Int32
    }

    fn from_value(v: &Value) -> (r: Result<i32, GraphError>) {
        v.as_i32()
    }
}

impl SupportedPropertyType<i64> for () {
    open spec fn reads(t: DataType) -> bool {
        t is Int64 || t is Timestamp
    }

    fn reads_type(t: &DataType) -> (r: bool) {
        match t {
            DataType::Int64 | DataType::Timestamp => true,
            _ => false,
        }
    }

    open spec fn holds(v: ValueView, out: i64) -> bool {
        v == ValueView::Int64(out)
    }

    open spec fn accepts(v: ValueView) -> bool {
        v is Int64
    }

    fn from_value(v: &Value) -> (r: Result<i64, GraphError>) {
        v.as_i64()
    }
}

impl SupportedPropertyType<String> for () {
    open spec fn reads(t: DataType) -> bool {
        t is String
    }

    fn reads_type(t: &DataType) -> (r: bool) {
        match t {
            DataType::String => true,
            _ => false,
        }
    }

    open spec fn holds(v: ValueView, out: String) -> bool {
        v == ValueView::String(out@)
    }

    open spec fn accepts(v: ValueView) -> bool {
        v is String
    }

    fn from_value(v: &Value) -> (r: Result<String, GraphError>) {
        v.as_string()
    }
}

impl SupportedPropertyType<Value> for () {
    open spec fn reads(t: DataType) -> bool {
        true
    }

    fn reads_type(t: &DataType) -> (r: bool) {
        true
    }

    open spec fn holds(v: ValueView, out: Value) -> bool {
        v == out@
    }

    open spec fn accepts(v: ValueView) -> bool {
        true
    }

    fn from_value(v: &Value) -> (r: Result<Value, GraphError>) {
        Ok(v.clone())
    }
}

/// The type with which the property `name` is declared: that of the first
/// property of the name in the first group that has one; `None` where no
/// group has one.
pub open spec fn declared_type(groups: Seq<PropertyGroupView>, name: Seq<char>) -> Option<DataType> {
    let g = group_index(groups, name, 0);
    if g >= groups.len() {
        None
    } else {
        Some(groups[g].properties[property_index(groups[g].properties, name, 0)].data_type)
    }
}

/// The type with which the property `name` is declared, if it is.
pub fn find_declared_type(groups: &Vec<PropertyGroup>, name: &str) -> (r: Option<DataType>)
    ensures
        r == declared_type(groups.deep_view(), name@),
{
    let g = find_group(groups, name);
    if g >= groups.len() {
        return None;
    }
    proof {
        lemma_group_index(groups.deep_view(), name@, 0);
        lemma_property_index(groups.deep_view()[g as int].properties, name@, 0);
    }
    let properties = groups[g].properties_ref();
    let c = find_property(properties, name);
    Some(properties[c].data_type())
}

/// What a typed read of a cell gives: the error of the access; else
/// `TypeMismatchError` where the type `T` does not read properties of the
/// declared type; else `MissingPropertyError` for a cell without a value;
/// else `TypeMismatchError` for a value of another variant; else what the
/// value holds.
pub open spec fn typed_read<T>(
    declared: Option<DataType>,
    cell: Result<Option<ValueView>, GraphError>,
    r: Result<T, GraphError>,
) -> bool where (): SupportedPropertyType<T> {
    match cell {
        Err(e) => r == Err::<T, GraphError>(e),
        Ok(content) => if declared is None {
            r == Err::<T, GraphError>(GraphError::MissingPropertyError)
        } else if !<() as SupportedPropertyType<T>>::reads(declared->Some_0) {
            r == Err::<T, GraphError>(GraphError::TypeMismatchError)
        } else {
            match content {
                None => r == Err::<T, GraphError>(GraphError::MissingPropertyError),
                Some(v) => if <() as SupportedPropertyType<T>>::accepts(v) {
                    r is Ok && <() as SupportedPropertyType<T>>::holds(v, r->Ok_0)
                } else {
                    r == Err::<T, GraphError>(GraphError::TypeMismatchError)
                },
            }
        },
    }
}

/// Reads a cell of a property of the declared type as the type `T`: see
/// `typed_read`.
pub fn read_cell<T>(declared: Option<DataType>, cell: Result<Option<&Value>, GraphError>) -> (r:
    Result<T, GraphError>) where (): SupportedPropertyType<T>
    ensures
        typed_read::<T>(declared, cell_view(cell), r),
{
    let content = match cell {
        Err(e) => {
            return Err(e);
        },
        Ok(content) => content,
    };
    match declared {
        None => Err(GraphError::MissingPropertyError),
        Some(t) => {
            if !<() as SupportedPropertyType<T>>::reads_type(&t) {
                return Err(GraphError::TypeMismatchError);
            }
            match content {
                None => Err(GraphError::MissingPropertyError),
                Some(v) => <() as SupportedPropertyType<T>>::from_value(v),
            }
        },
    }
}

} // verus!
