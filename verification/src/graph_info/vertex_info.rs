//! The description of one vertex type.

use crate::error::GraphError;
use crate::graph_info::property::{
    clone_groups, find_group, group_index, groups_wf, PropertyGroup, PropertyGroupVector,
    PropertyGroupView,
};
use crate::graph_info::version::{supported_version, InfoVersion};
use vstd::prelude::*;
use vstd::string::*;

verus! {

/// Copies a list of strings.
pub fn clone_strings(items: &Vec<String>) -> (r: Vec<String>)
    ensures
        r.deep_view() == items.deep_view(),
{
    let r = items.clone();
    assert(r.deep_view() =~= items.deep_view());
    r
}

/// A vertex type: its name, how many vertices one chunk holds, its property
/// groups and labels, where its files lie, and the version of the format.
#[derive(Debug)]
pub struct VertexInfo {
    ty: String,
    chunk_size: i64,
    property_groups: Vec<PropertyGroup>,
    labels: Vec<String>,
    prefix: String,
    version: InfoVersion,
}

/// What a vertex type is, as a mathematical value.
pub struct VertexInfoView {
    pub ty: Seq<char>,
    pub chunk_size: int,
    pub property_groups: Seq<PropertyGroupView>,
    pub labels: Seq<Seq<char>>,
    pub prefix: Seq<char>,
    pub version: int,
}

impl VertexInfoView {
    /// The type has a name, a positive chunk size, well-formed groups whose
    /// number fits the counters, and a supported version.
    pub open spec fn wf(self) -> bool {
        &&& self.ty.len() > 0
        &&& 0 < self.chunk_size <= i64::MAX
        &&& groups_wf(self.property_groups)
        &&& self.property_groups.len() <= i32::MAX
        &&& supported_version(self.version)
    }
}

impl View for VertexInfo {
    type V = VertexInfoView;

    closed spec fn view(&self) -> VertexInfoView {
        VertexInfoView {
            ty: self.ty@,
            chunk_size: self.chunk_size as int,
            property_groups: self.property_groups.deep_view(),
            labels: self.labels.deep_view(),
            prefix: self.prefix@,
            version: self.version@,
        }
    }
}

impl DeepView for VertexInfo {
    type V = VertexInfoView;

    open spec fn deep_view(&self) -> VertexInfoView {
        self@
    }
}

impl Clone for VertexInfo {
    fn clone(&self) -> (r: Self)
        ensures
            r@ == self@,
    {
        proof {
            use_type_invariant(self);
        }
        VertexInfo {
            ty: self.ty.clone(),
            chunk_size: self.chunk_size,
            property_groups: clone_groups(&self.property_groups),
            labels: clone_strings(&self.labels),
            prefix: self.prefix.clone(),
            version: self.version,
        }
    }
}

/// What `VertexInfo::new` accepts: a name that is not empty, a positive
/// chunk size, and no more groups than the counters can hold.
pub open spec fn vertex_info_accepted(ty: Seq<char>, chunk_size: int, groups: nat) -> bool {
    ty.len() > 0 && chunk_size > 0 && groups <= i32::MAX
}

impl VertexInfo {
    #[verifier::type_invariant]
    spec fn valid(&self) -> bool {
        self@.wf()
    }

    /// Describes a vertex type. Fails with `SchemaError` when the name is
    /// empty, the chunk size is not positive, or there are more groups than
    /// `i32::MAX`.
    pub fn new(
        ty: String,
        chunk_size: i64,
        property_groups: PropertyGroupVector,
        labels: Vec<String>,
        prefix: &str,
        version: InfoVersion,
    ) -> (r: Result<Self, GraphError>)
        ensures
            vertex_info_accepted(ty@, chunk_size as int, property_groups@.len()) ==> r is Ok
                && r->Ok_0@ == (VertexInfoView {
                ty: ty@,
                chunk_size: chunk_size as int,
                property_groups: property_groups@,
                labels: labels.deep_view(),
                prefix: prefix@,
                version: version@,
            }) && r->Ok_0@.wf(),
            !vertex_info_accepted(ty@, chunk_size as int, property_groups@.len()) ==> r == Err::<
                Self,
                GraphError,
            >(GraphError::SchemaError),
    {
        let groups = property_groups.into_vec();
        if ty.as_str().is_empty() || chunk_size <= 0 || groups.len() > i32::MAX as usize {
            return Err(GraphError::SchemaError);
        }
        let _ = version.version();
        Ok(
            VertexInfo {
                ty,
                chunk_size,
                property_groups: groups,
                labels,
                prefix: prefix.to_owned(),
                version,
            },
        )
    }

    /// The name of the vertex type.
    pub fn ty(&self) -> (r: String)
        ensures
            r@ == self@.ty,
    {
        self.ty.clone()
    }

    /// The name of the type, borrowed.
    pub fn ty_str(&self) -> (r: &str)
        ensures
            r@ == self@.ty,
    {
        self.ty.as_str()
    }

    /// How many vertices one chunk holds; always positive.
    pub fn chunk_size(&self) -> (r: i64)
        ensures
            r == self@.chunk_size,
            r > 0,
    {
        proof {
            use_type_invariant(self);
        }
        self.chunk_size
    }

    /// The prefix under which the files of the type lie.
    pub fn prefix(&self) -> (r: String)
        ensures
            r@ == self@.prefix,
    {
        self.prefix.clone()
    }

    /// The prefix, borrowed.
    pub fn prefix_str(&self) -> (r: &str)
        ensures
            r@ == self@.prefix,
    {
        self.prefix.as_str()
    }

    /// The version of the format.
    pub fn version(&self) -> (r: InfoVersion)
        ensures
            r@ == self@.version,
    {
        self.version
    }

    /// The labels that a vertex of the type can have.
    pub fn labels(&self) -> (r: Vec<String>)
        ensures
            r.deep_view() == self@.labels,
    {
        clone_strings(&self.labels)
    }

    /// The labels, borrowed.
    pub fn labels_ref(&self) -> (r: &Vec<String>)
        ensures
            r.deep_view() == self@.labels,
    {
        &self.labels
    }

    /// The number of property groups.
    pub fn property_group_num(&self) -> (r: i32)
        ensures
            r == self@.property_groups.len(),
    {
        proof {
            use_type_invariant(self);
        }
        self.property_groups.len() as i32
    }

    /// The property groups of the type, in their order.
    pub fn property_groups(&self) -> (r: Vec<PropertyGroup>)
        ensures
            r.deep_view() == self@.property_groups,
    {
        clone_groups(&self.property_groups)
    }

    /// The groups, borrowed.
    pub fn property_groups_ref(&self) -> (r: &Vec<PropertyGroup>)
        ensures
            r.deep_view() == self@.property_groups,
            self@.wf(),
    {
        proof {
            use_type_invariant(self);
        }
        &self.property_groups
    }

    /// The first group that has a property called `property_name`; `None`
    /// when no group has one.
    pub fn property_group(&self, property_name: &str) -> (r: Option<PropertyGroup>)
        ensures
            ({
                let g = group_index(self@.property_groups, property_name@, 0);
                if g < self@.property_groups.len() {
                    r is Some && r->Some_0@ == self@.property_groups[g]
                } else {
                    r is None
                }
            }),
    {
        let g = find_group(&self.property_groups, property_name);
        if g < self.property_groups.len() {
            Some(self.property_groups[g].clone())
        } else {
            None
        }
    }

    /// The group at `index`; `None` when the index is out of range.
    pub fn property_group_by_index(&self, index: i32) -> (r: Option<PropertyGroup>)
        ensures
            0 <= index < self@.property_groups.len() ==> r is Some && r->Some_0@
                == self@.property_groups[index as int],
            !(0 <= index < self@.property_groups.len()) ==> r is None,
    {
        if index < 0 || index as usize >= self.property_groups.len() {
            None
        } else {
            Some(self.property_groups[index as usize].clone())
        }
    }
}

} // verus!
