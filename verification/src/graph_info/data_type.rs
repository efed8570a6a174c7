//! The types that a property's values can have.

use vstd::prelude::*;
use vstd::std_specs::cmp::{PartialEqSpec, PartialEqSpecImpl};
use vstd::string::*;

verus! {

/// The tag of a data type, without what a list holds.
#[derive(Clone, Copy, Debug, PartialEq, Eq, Structural)]
pub enum Type {
    Bool,
    Int32,
    Int64,
    Float,
    Double,
    String,
    Date,
    Timestamp,
    List,
}

/// The type of a property's values. `Null` is the absent type: it is what
/// `value_type` gives for a type that is no list, and no value has it.
#[derive(Debug)]
pub enum DataType {
    Null,
    Bool,
    Int32,
    Int64,
    Float32,
    Float64,
    String,
    Date,
    Timestamp,
    List(Box<DataType>),
}

/// The element type of a list type, and `Null` for every other type.
pub open spec fn value_type_of(t: DataType) -> DataType {
    match t {
        DataType::List(inner) => *inner,
        _ => DataType::Null,
    }
}

/// The tag of a type that is not `Null`.
pub open spec fn tag_of(t: DataType) -> Type
    recommends
        !(t is Null),
{
    match t {
        DataType::Bool => Type::Bool,
        DataType::Int32 => Type::Int32,
        DataType::Int64 => Type::Int64,
        DataType::Float32 => Type::Float,
        DataType::Float64 => Type::Double,
        DataType::String => Type::String,
        DataType::Date => Type::Date,
        DataType::Timestamp => Type::Timestamp,
        _ => Type::List,
    }
}

/// The name under which a type is written.
pub open spec fn name_of_type(t: DataType) -> Seq<char>
    decreases t,
{
    match t {
        DataType::Null => "null"@,
        DataType::Bool => "bool"@,
        DataType::Int32 => "int32"@,
        DataType::Int64 => "int64"@,
        DataType::Float32 => "float"@,
        DataType::Float64 => "double"@,
        DataType::String => "string"@,
        DataType::Date => "date"@,
        DataType::Timestamp => "timestamp"@,
        DataType::List(inner) => "list<"@ + name_of_type(*inner) + ">"@,
    }
}

impl Clone for DataType {
    fn clone(&self) -> (r: Self)
        ensures
            r == *self,
        decreases self,
    {
        match self {
            DataType::Null => DataType::Null,
            DataType::Bool => DataType::Bool,
            DataType::Int32 => DataType::Int32,
            DataType::Int64 => DataType::Int64,
            DataType::Float32 => DataType::Float32,
            DataType::Float64 => DataType::Float64,
            DataType::String => DataType::String,
            DataType::Date => DataType::Date,
            DataType::Timestamp => DataType::Timestamp,
            DataType::List(inner) => DataType::List(Box::new((&**inner).clone())),
        }
    }
}

impl PartialEq for DataType {
    /// Two types are equal when both are absent, or both are the same scalar,
    /// or both are lists of equal element types.
    fn eq(&self, other: &Self) -> (r: bool)
        decreases self,
    {
        match (self, other) {
            (DataType::Null, DataType::Null) => true,
            (DataType::Bool, DataType::Bool) => true,
            (DataType::Int32, DataType::Int32) => true,
            (DataType::Int64, DataType::Int64) => true,
            (DataType::Float32, DataType::Float32) => true,
            (DataType::Float64, DataType::Float64) => true,
            (DataType::String, DataType::String) => true,
            (DataType::Date, DataType::Date) => true,
            (DataType::Timestamp, DataType::Timestamp) => true,
            (DataType::List(a), DataType::List(b)) => (&**a).eq(&**b),
            _ => false,
        }
    }
}

impl PartialEqSpecImpl for DataType {
    open spec fn obeys_eq_spec() -> bool {
        true
    }

    open spec fn eq_spec(&self, other: &Self) -> bool {
        *self == *other
    }
}

impl Eq for DataType {

}

impl View for DataType {
    type V = DataType;

    open spec fn view(&self) -> DataType {
        *self
    }
}

impl DeepView for DataType {
    type V = DataType;

    open spec fn deep_view(&self) -> DataType {
        *self
    }
}

impl DataType {
    /// The absent type.
    pub fn null() -> (r: Self)
        ensures
            r == DataType::Null,
    {
        DataType::Null
    }

    /// The type of booleans.
    pub fn bool() -> (r: Self)
        ensures
            r == DataType::Bool,
    {
        DataType::Bool
    }

    /// The type of 32-bit integers.
    pub fn int32() -> (r: Self)
        ensures
            r == DataType::Int32,
    {
        DataType::Int32
    }

    /// The type of 64-bit integers.
    pub fn int64() -> (r: Self)
        ensures
            r == DataType::Int64,
    {
        DataType::Int64
    }

    /// The type of 32-bit floating-point numbers.
    pub fn float32() -> (r: Self)
        ensures
            r == DataType::Float32,
    {
        DataType::Float32
    }

    /// The type of 64-bit floating-point numbers.
    pub fn float64() -> (r: Self)
        ensures
            r == DataType::Float64,
    {
        DataType::Float64
    }

    /// The type of text.
    pub fn string() -> (r: Self)
        ensures
            r == DataType::String,
    {
        DataType::String
    }

    /// The type of dates.
    pub fn date() -> (r: Self)
        ensures
            r == DataType::Date,
    {
        DataType::Date
    }

    /// The type of timestamps.
    pub fn timestamp() -> (r: Self)
        ensures
            r == DataType::Timestamp,
    {
        DataType::Timestamp
    }

    /// The type of lists whose elements have the type `value_type`.
    pub fn list(value_type: &DataType) -> (r: Self)
        ensures
            r == DataType::List(Box::new(*value_type)),
    {
        DataType::List(Box::new(value_type.clone()))
    }

    /// The element type of a list type; `Null` for a type that is no list.
    pub fn value_type(&self) -> (r: Self)
        ensures
            r == value_type_of(*self),
    {
        match self {
            DataType::List(inner) => (&**inner).clone(),
            _ => DataType::Null,
        }
    }

    /// The tag of a type. The absent type has none.
    pub fn id(&self) -> (r: Type)
        requires
            !(*self is Null),
        ensures
            r == tag_of(*self),
    {
        match self {
            DataType::Bool => Type::Bool,
            DataType::Int32 => Type::Int32,
            DataType::Int64 => Type::Int64,
            DataType::Float32 => Type::Float,
            DataType::Float64 => Type::Double,
            DataType::String => Type::String,
            DataType::Date => Type::Date,
            DataType::Timestamp => Type::Timestamp,
            _ => Type::List,
        }
    }

    /// The name under which the type is written, such as `list<int32>`.
    pub fn to_string(&self) -> (r: String)
        ensures
            r@ == name_of_type(*self),
        decreases self,
    {
        match self {
            DataType::Null => "null".to_owned(),
            DataType::Bool => "bool".to_owned(),
            DataType::Int32 => "int32".to_owned(),
            DataType::Int64 => "int64".to_owned(),
            DataType::Float32 => "float".to_owned(),
            DataType::Float64 => "double".to_owned(),
            DataType::String => "string".to_owned(),
            DataType::Date => "date".to_owned(),
            DataType::Timestamp => "timestamp".to_owned(),
            DataType::List(inner) => {
                let mut out = "list<".to_owned();
                let element = (&**inner).to_string();
                out.append(element.as_str());
                out.append(">");
                out
            },
        }
    }
}

/// Two list types are equal exactly when their element types are equal.
pub proof fn lemma_list_types_equal(a: DataType, b: DataType)
    ensures
        PartialEqSpec::eq_spec(&DataType::List(Box::new(a)), &DataType::List(Box::new(b)))
            <==> PartialEqSpec::eq_spec(&a, &b),
{
}

/// A type that is no list equals a second type only if that is the same
/// scalar: never a list, and never a scalar with another tag.
pub proof fn lemma_scalar_types_equal(a: DataType, b: DataType)
    requires
        !(a is List),
        !(a is Null),
    ensures
        PartialEqSpec::eq_spec(&a, &b) <==> !(b is List) && !(b is Null) && tag_of(a) == tag_of(b),
{
}

} // verus!
