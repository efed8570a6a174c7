//! Descriptors: what a schema holds, as plain fields that were not checked.
//! A descriptor is what is written down of a schema and read back; loading
//! one checks it and gives the schema. A descriptor has the same
//! mathematical value as the schema that it describes.

use crate::error::GraphError;
use crate::graph_info::edge_info::{
    clone_lists, AdjacentList, AdjacentListVector, EdgeInfo, EdgeInfoView,
};
use crate::graph_info::graph::{edge_infos_wf, vertex_infos_wf, GraphInfo, GraphInfoView};
use crate::graph_info::property::{
    groups_wf, FileType, Property, PropertyGroup, PropertyGroupVector, PropertyGroupView,
    PropertyVec,
};
use crate::graph_info::version::InfoVersion;
use crate::graph_info::vertex_info::{clone_strings, VertexInfo, VertexInfoView};
use vstd::prelude::*;
use vstd::string::*;

verus! {

/// A property group as it is written down.
#[derive(Debug)]
pub struct PropertyGroupDescriptor {
    pub properties: Vec<Property>,
    pub file_type: FileType,
    pub prefix: String,
}

impl View for PropertyGroupDescriptor {
    type V = PropertyGroupView;

    open spec fn view(&self) -> PropertyGroupView {
        PropertyGroupView {
            properties: self.properties.deep_view(),
            file_type: self.file_type,
            prefix: self.prefix@,
        }
    }
}

impl DeepView for PropertyGroupDescriptor {
    type V = PropertyGroupView;

    open spec fn deep_view(&self) -> PropertyGroupView {
        self@
    }
}

/// A vertex type as it is written down.
#[derive(Debug)]
pub struct VertexDescriptor {
    pub ty: String,
    pub chunk_size: i64,
    pub property_groups: Vec<PropertyGroupDescriptor>,
    pub labels: Vec<String>,
    pub prefix: String,
    pub version: i32,
}

impl View for VertexDescriptor {
    type V = VertexInfoView;

    open spec fn view(&self) -> VertexInfoView {
        VertexInfoView {
            ty: self.ty@,
            chunk_size: self.chunk_size as int,
            property_groups: self.property_groups.deep_view(),
            labels: self.labels.deep_view(),
            prefix: self.prefix@,
            version: self.version as int,
        }
    }
}

impl DeepView for VertexDescriptor {
    type V = VertexInfoView;

    open spec fn deep_view(&self) -> VertexInfoView {
        self@
    }
}

/// An edge type as it is written down.
#[derive(Debug)]
pub struct EdgeDescriptor {
    pub src_type: String,
    pub edge_type: String,
    pub dst_type: String,
    pub chunk_size: i64,
    pub src_chunk_size: i64,
    pub dst_chunk_size: i64,
    pub directed: bool,
    pub adjacent_lists: Vec<AdjacentList>,
    pub property_groups: Vec<PropertyGroupDescriptor>,
    pub prefix: String,
    pub version: i32,
}

impl View for EdgeDescriptor {
    type V = EdgeInfoView;

    open spec fn view(&self) -> EdgeInfoView {
        EdgeInfoView {
            src_type: self.src_type@,
            edge_type: self.edge_type@,
            dst_type: self.dst_type@,
            chunk_size: self.chunk_size as int,
            src_chunk_size: self.src_chunk_size as int,
            dst_chunk_size: self.dst_chunk_size as int,
            directed: self.directed,
            adjacent_lists: self.adjacent_lists.deep_view(),
            property_groups: self.property_groups.deep_view(),
            prefix: self.prefix@,
            version: self.version as int,
        }
    }
}

impl DeepView for EdgeDescriptor {
    type V = EdgeInfoView;

    open spec fn deep_view(&self) -> EdgeInfoView {
        self@
    }
}

/// A graph as it is written down. The version `0` stands for no recorded
/// version.
#[derive(Debug)]
pub struct GraphDescriptor {
    pub name: String,
    pub vertices: Vec<VertexDescriptor>,
    pub edges: Vec<EdgeDescriptor>,
    pub labels: Vec<String>,
    pub prefix: String,
    pub version: i32,
}

impl View for GraphDescriptor {
    type V = GraphInfoView;

    open spec fn view(&self) -> GraphInfoView {
        GraphInfoView {
            name: self.name@,
            vertex_infos: self.vertices.deep_view(),
            edge_infos: self.edges.deep_view(),
            labels: self.labels.deep_view(),
            prefix: self.prefix@,
            version: self.version as int,
        }
    }
}

/// The descriptor that `GraphInfo::dump` makes of a graph: the fields of the
/// graph as they are.
pub open spec fn graph_dump(graph: GraphInfoView) -> GraphInfoView {
    graph
}

/// What `GraphInfo::load` makes of a descriptor: the graph with the fields
/// of the descriptor where these are well formed, and `SchemaError` where
/// they are not.
pub open spec fn graph_load(descriptor: GraphInfoView) -> Result<GraphInfoView, GraphError> {
    if descriptor.wf() {
        Ok(descriptor)
    } else {
        Err(GraphError::SchemaError)
    }
}

fn clone_properties(items: &Vec<Property>) -> (r: Vec<Property>)
    ensures
        r.deep_view() == items.deep_view(),
{
    let r = items.clone();
    assert(r.deep_view() =~= items.deep_view());
    r
}

fn dump_groups(groups: &Vec<PropertyGroup>) -> (r: Vec<PropertyGroupDescriptor>)
    ensures
        r.deep_view() == groups.deep_view(),
{
    let mut out: Vec<PropertyGroupDescriptor> = Vec::new();
    let mut g: usize = 0;
    while g < groups.len()
        invariant
            0 <= g <= groups@.len(),
            out@.len() == g,
            forall|k: int| 0 <= k < g ==> (#[trigger] out@[k])@ == groups@[k]@,
        decreases groups@.len() - g,
    {
        out.push(groups[g].dump());
        g += 1;
    }
    assert(out.deep_view() =~= groups.deep_view());
    out
}

fn load_groups(groups: &Vec<PropertyGroupDescriptor>) -> (r: Result<Vec<PropertyGroup>, GraphError>)
    ensures
        groups_wf(groups.deep_view()) ==> r is Ok && r->Ok_0.deep_view() == groups.deep_view(),
        !groups_wf(groups.deep_view()) ==> r == Err::<Vec<PropertyGroup>, GraphError>(
            GraphError::SchemaError,
        ),
{
    let mut out: Vec<PropertyGroup> = Vec::new();
    let mut g: usize = 0;
    while g < groups.len()
        invariant
            0 <= g <= groups@.len(),
            out@.len() == g,
            forall|k: int| 0 <= k < g ==> (#[trigger] groups@[k])@.wf(),
            forall|k: int| 0 <= k < g ==> (#[trigger] out@[k])@ == groups@[k]@,
        decreases groups@.len() - g,
    {
        match PropertyGroup::load(&groups[g]) {
            Ok(group) => {
                out.push(group);
            },
            Err(e) => {
                assert(!(groups.deep_view()[g as int]).wf());
                return Err(e);
            },
        }
        g += 1;
    }
    assert(out.deep_view() =~= groups.deep_view());
    assert forall|k: int| 0 <= k < groups@.len() implies (#[trigger] groups.deep_view()[k]).wf() by {
        assert(groups@[k]@.wf());
    }
    Ok(out)
}

impl PropertyGroup {
    /// The descriptor of the group.
    pub fn dump(&self) -> (r: PropertyGroupDescriptor)
        ensures
            r@ == self@,
            self@.wf(),
    {
        PropertyGroupDescriptor {
            properties: self.properties(),
            file_type: self.file_type(),
            prefix: self.prefix(),
        }
    }

    /// The group that a descriptor describes. Fails with `SchemaError` when
    /// two properties have the same name.
    pub fn load(descriptor: &PropertyGroupDescriptor) -> (r: Result<Self, GraphError>)
        ensures
            descriptor@.wf() ==> r is Ok && r->Ok_0@ == descriptor@,
            !descriptor@.wf() ==> r == Err::<Self, GraphError>(GraphError::SchemaError),
    {
        PropertyGroup::new(
            PropertyVec::from_properties(clone_properties(&descriptor.properties)),
            descriptor.file_type,
            descriptor.prefix.as_str(),
        )
    }
}

impl VertexInfo {
    /// The descriptor of the vertex type.
    pub fn dump(&self) -> (r: VertexDescriptor)
        ensures
            r@ == self@,
            self@.wf(),
    {
        let groups = self.property_groups_ref();
        VertexDescriptor {
            ty: self.ty(),
            chunk_size: self.chunk_size(),
            property_groups: dump_groups(groups),
            labels: self.labels(),
            prefix: self.prefix(),
            version: self.version().version(),
        }
    }

    /// The vertex type that a descriptor describes. Fails with
    /// `SchemaError` when the descriptor is not well formed: an unsupported
    /// version, an empty name, a chunk size that is not positive, a property
    /// name twice in a group, or more groups than `i32::MAX`.
    pub fn load(descriptor: &VertexDescriptor) -> (r: Result<Self, GraphError>)
        ensures
            descriptor@.wf() ==> r is Ok && r->Ok_0@ == descriptor@,
            !descriptor@.wf() ==> r == Err::<Self, GraphError>(GraphError::SchemaError),
    {
        let version = match InfoVersion::new(descriptor.version) {
            Ok(version) => version,
            Err(e) => {
                return Err(e);
            },
        };
        let groups = match load_groups(&descriptor.property_groups) {
            Ok(groups) => groups,
            Err(e) => {
                return Err(e);
            },
        };
        VertexInfo::new(
            descriptor.ty.clone(),
            descriptor.chunk_size,
            PropertyGroupVector::from_groups(groups),
            clone_strings(&descriptor.labels),
            descriptor.prefix.as_str(),
            version,
        )
    }
}

impl EdgeInfo {
    /// The descriptor of the edge type.
    pub fn dump(&self) -> (r: EdgeDescriptor)
        ensures
            r@ == self@,
            self@.wf(),
    {
        let groups = self.property_groups_ref();
        EdgeDescriptor {
            src_type: self.src_type(),
            edge_type: self.edge_type(),
            dst_type: self.dst_type(),
            chunk_size: self.chunk_size(),
            src_chunk_size: self.src_chunk_size(),
            dst_chunk_size: self.dst_chunk_size(),
            directed: self.is_directed(),
            adjacent_lists: self.adjacent_lists(),
            property_groups: dump_groups(groups),
            prefix: self.prefix(),
            version: self.version().version(),
        }
    }

    /// The edge type that a descriptor describes. Fails with `SchemaError`
    /// when the descriptor is not well formed: an unsupported version, an
    /// empty name, a chunk size that is not positive, no adjacency list or a
    /// kind twice, a property name twice in a group, or more groups than
    /// `i32::MAX`.
    pub fn load(descriptor: &EdgeDescriptor) -> (r: Result<Self, GraphError>)
        ensures
            descriptor@.wf() ==> r is Ok && r->Ok_0@ == descriptor@,
            !descriptor@.wf() ==> r == Err::<Self, GraphError>(GraphError::SchemaError),
    {
        let version = match InfoVersion::new(descriptor.version) {
            Ok(version) => version,
            Err(e) => {
                return Err(e);
            },
        };
        let groups = match load_groups(&descriptor.property_groups) {
            Ok(groups) => groups,
            Err(e) => {
                return Err(e);
            },
        };
        EdgeInfo::new(
            descriptor.src_type.as_str(),
            descriptor.edge_type.as_str(),
            descriptor.dst_type.as_str(),
            descriptor.chunk_size,
            descriptor.src_chunk_size,
            descriptor.dst_chunk_size,
            descriptor.directed,
            AdjacentListVector::from_lists(clone_lists(&descriptor.adjacent_lists)),
            PropertyGroupVector::from_groups(groups),
            descriptor.prefix.as_str(),
            version,
        )
    }
}

fn dump_vertices(infos: &Vec<VertexInfo>) -> (r: Vec<VertexDescriptor>)
    ensures
        r.deep_view() == infos.deep_view(),
{
    let mut out: Vec<VertexDescriptor> = Vec::new();
    let mut i: usize = 0;
    while i < infos.len()
        invariant
            0 <= i <= infos@.len(),
            out@.len() == i,
            forall|k: int| 0 <= k < i ==> (#[trigger] out@[k])@ == infos@[k]@,
        decreases infos@.len() - i,
    {
        out.push(infos[i].dump());
        i += 1;
    }
    assert(out.deep_view() =~= infos.deep_view());
    out
}

fn dump_edges(infos: &Vec<EdgeInfo>) -> (r: Vec<EdgeDescriptor>)
    ensures
        r.deep_view() == infos.deep_view(),
{
    let mut out: Vec<EdgeDescriptor> = Vec::new();
    let mut i: usize = 0;
    while i < infos.len()
        invariant
            0 <= i <= infos@.len(),
            out@.len() == i,
            forall|k: int| 0 <= k < i ==> (#[trigger] out@[k])@ == infos@[k]@,
        decreases infos@.len() - i,
    {
        out.push(infos[i].dump());
        i += 1;
    }
    assert(out.deep_view() =~= infos.deep_view());
    out
}

fn load_vertices(descriptors: &Vec<VertexDescriptor>) -> (r: Result<Vec<VertexInfo>, GraphError>)
    ensures
        vertex_infos_wf(descriptors.deep_view()) ==> r is Ok && r->Ok_0.deep_view()
            == descriptors.deep_view(),
        !vertex_infos_wf(descriptors.deep_view()) ==> r == Err::<Vec<VertexInfo>, GraphError>(
            GraphError::SchemaError,
        ),
{
    let mut out: Vec<VertexInfo> = Vec::new();
    let mut i: usize = 0;
    while i < descriptors.len()
        invariant
            0 <= i <= descriptors@.len(),
            out@.len() == i,
            forall|k: int| 0 <= k < i ==> (#[trigger] descriptors@[k])@.wf(),
            forall|k: int| 0 <= k < i ==> (#[trigger] out@[k])@ == descriptors@[k]@,
        decreases descriptors@.len() - i,
    {
        match VertexInfo::load(&descriptors[i]) {
            Ok(info) => {
                out.push(info);
            },
            Err(e) => {
                assert(!(descriptors.deep_view()[i as int]).wf());
                return Err(e);
            },
        }
        i += 1;
    }
    assert(out.deep_view() =~= descriptors.deep_view());
    assert forall|k: int| 0 <= k < descriptors@.len() implies (
    #[trigger] descriptors.deep_view()[k]).wf() by {
        assert(descriptors@[k]@.wf());
    }
    Ok(out)
}

fn load_edges(descriptors: &Vec<EdgeDescriptor>) -> (r: Result<Vec<EdgeInfo>, GraphError>)
    ensures
        edge_infos_wf(descriptors.deep_view()) ==> r is Ok && r->Ok_0.deep_view()
            == descriptors.deep_view(),
        !edge_infos_wf(descriptors.deep_view()) ==> r == Err::<Vec<EdgeInfo>, GraphError>(
            GraphError::SchemaError,
        ),
{
    let mut out: Vec<EdgeInfo> = Vec::new();
    let mut i: usize = 0;
    while i < descriptors.len()
        invariant
            0 <= i <= descriptors@.len(),
            out@.len() == i,
            forall|k: int| 0 <= k < i ==> (#[trigger] descriptors@[k])@.wf(),
            forall|k: int| 0 <= k < i ==> (#[trigger] out@[k])@ == descriptors@[k]@,
        decreases descriptors@.len() - i,
    {
        match EdgeInfo::load(&descriptors[i]) {
            Ok(info) => {
                out.push(info);
            },
            Err(e) => {
                assert(!(descriptors.deep_view()[i as int]).wf());
                return Err(e);
            },
        }
        i += 1;
    }
    assert(out.deep_view() =~= descriptors.deep_view());
    assert forall|k: int| 0 <= k < descriptors@.len() implies (
    #[trigger] descriptors.deep_view()[k]).wf() by {
        assert(descriptors@[k]@.wf());
    }
    Ok(out)
}

impl GraphInfo {
    /// The descriptor of the graph, with the descriptors of its vertex and
    /// edge types.
    pub fn dump(&self) -> (r: GraphDescriptor)
        ensures
            r@ == graph_dump(self@),
            self@.wf(),
    {
        let version: i32 = match self.version() {
            Some(v) => v.version(),
            None => 0,
        };
        GraphDescriptor {
            name: self.name(),
            vertices: dump_vertices(self.vertex_infos_ref()),
            edges: dump_edges(self.edge_infos_ref()),
            labels: self.labels(),
            prefix: self.prefix(),
            version,
        }
    }

    /// The graph that a descriptor describes. Fails with `SchemaError` when
    /// the descriptor is not well formed: a version that is recorded and not
    /// supported, a vertex or edge type that is not well formed, an edge
    /// type that starts or ends at a vertex type that the graph does not
    /// declare, or more types of either sort than `i32::MAX`.
    pub fn load(descriptor: &GraphDescriptor) -> (r: Result<Self, GraphError>)
        ensures
            match r {
                Ok(graph) => graph_load(descriptor@) == Ok::<GraphInfoView, GraphError>(graph@),
                Err(e) => graph_load(descriptor@) == Err::<GraphInfoView, GraphError>(e),
            },
    {
        let version = if descriptor.version == 0 {
            None
        } else {
            match InfoVersion::new(descriptor.version) {
                Ok(version) => Some(version),
                Err(e) => {
                    return Err(e);
                },
            }
        };
        let vertices = match load_vertices(&descriptor.vertices) {
            Ok(vertices) => vertices,
            Err(e) => {
                return Err(e);
            },
        };
        let edges = match load_edges(&descriptor.edges) {
            Ok(edges) => edges,
            Err(e) => {
                return Err(e);
            },
        };
        GraphInfo::new(
            descriptor.name.as_str(),
            &vertices,
            &edges,
            &descriptor.labels,
            descriptor.prefix.as_str(),
            version,
        )
    }
}

/// Writing a graph down and reading it back gives the graph: of the
/// descriptor that `dump` makes of a well-formed graph, `load` makes a graph
/// with the same value, and so with the same name, the same vertex and edge
/// types, and the same properties in the same groups.
pub proof fn lemma_load_after_dump(graph: GraphInfoView)
    requires
        graph.wf(),
    ensures
        graph_load(graph_dump(graph)) == Ok::<GraphInfoView, GraphError>(graph),
{
}

} // verus!
