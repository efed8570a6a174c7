//! The version tag of a schema.

use crate::error::GraphError;
use crate::text::{decimal, push_decimal};
use vstd::prelude::*;
use vstd::string::*;

verus! {

/// Whether schemas of this version number can be read and written.
pub open spec fn supported_version(version: int) -> bool {
    version == 1
}

/// The text of a version tag: `gar/v` and the number.
pub open spec fn version_text(version: int) -> Seq<char>
    recommends
        version >= 0,
{
    "gar/v"@ + decimal(version as nat)
}

/// The version of the format that a schema follows. Only supported versions
/// can be made.
#[derive(Clone, Copy, Debug, PartialEq, Eq, Structural)]
pub struct InfoVersion {
    version: i32,
}

impl View for InfoVersion {
    type V = int;

    closed spec fn view(&self) -> int {
        self.version as int
    }
}

impl DeepView for InfoVersion {
    type V = int;

    open spec fn deep_view(&self) -> int {
        self@
    }
}

impl InfoVersion {
    #[verifier::type_invariant]
    spec fn valid(&self) -> bool {
        supported_version(self@)
    }

    /// The tag of the given version. Fails with `SchemaError` when the
    /// version is not supported.
    pub fn new(version: i32) -> (r: Result<Self, GraphError>)
        ensures
            supported_version(version as int) ==> r is Ok && r->Ok_0@ == version,
            !supported_version(version as int) ==> r == Err::<Self, GraphError>(
                GraphError::SchemaError,
            ),
    {
        if version == 1 {
            Ok(InfoVersion { version })
        } else {
            Err(GraphError::SchemaError)
        }
    }

    /// The version number.
    pub fn version(&self) -> (r: i32)
        ensures
            r == self@,
            supported_version(self@),
    {
        proof {
            use_type_invariant(self);
        }
        self.version
    }

    /// The tag as text, such as `gar/v1`.
    pub fn to_string(&self) -> (r: String)
        ensures
            r@ == version_text(self@),
    {
        proof {
            use_type_invariant(self);
        }
        let mut out = "gar/v".to_owned();
        push_decimal(&mut out, self.version as u64);
        out
    }
}

/// The version number of an optional tag; `0` stands for no tag.
pub open spec fn version_number(version: Option<InfoVersion>) -> int {
    match version {
        Some(v) => v@,
        None => 0,
    }
}

} // verus!
