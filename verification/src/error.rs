//! The failures that the library reports.

use vstd::prelude::*;

verus! {

/// Why an operation of the library failed.
#[derive(Clone, Copy, Debug, PartialEq, Eq, Structural)]
pub enum GraphError {
    /// A schema is malformed: an unsupported version, an empty type name, a
    /// chunk size that is not positive, a duplicate property or adjacency
    /// kind, or a reference to a type that is not declared.
    SchemaError,
    /// A chunk that an access needs is missing or does not have the shape
    /// that the schema gives it.
    IOError,
    /// A value does not have the type that was declared or asked for.
    TypeMismatchError,
    /// A property has no value where one is needed, or is not declared.
    MissingPropertyError,
    /// An id or a position lies beyond the data.
    OutOfRangeError,
}

impl GraphError {
    /// The name of the failure.
    pub fn to_string(&self) -> (r: String)
        ensures
            r@ == error_name(*self),
    {
        match self {
            GraphError::SchemaError => "SchemaError".to_owned(),
            GraphError::IOError => "IOError".to_owned(),
            GraphError::TypeMismatchError => "TypeMismatchError".to_owned(),
            GraphError::MissingPropertyError => "MissingPropertyError".to_owned(),
            GraphError::OutOfRangeError => "OutOfRangeError".to_owned(),
        }
    }
}

/// The text that names a failure.
pub open spec fn error_name(e: GraphError) -> Seq<char> {
    match e {
        GraphError::SchemaError => "SchemaError"@,
        GraphError::IOError => "IOError"@,
        GraphError::TypeMismatchError => "TypeMismatchError"@,
        GraphError::MissingPropertyError => "MissingPropertyError"@,
        GraphError::OutOfRangeError => "OutOfRangeError"@,
    }
}

} // verus!
