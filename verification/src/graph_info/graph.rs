//! The description of a whole graph.

use crate::error::GraphError;
use crate::graph_info::edge_info::{EdgeInfo, EdgeInfoView};
use crate::graph_info::version::{supported_version, version_number, InfoVersion};
use crate::graph_info::vertex_info::{clone_strings, VertexInfo, VertexInfoView};
use crate::text::str_eq;
use vstd::prelude::*;
use vstd::string::*;

verus! {

/// The index of the first vertex type at or after `from` that is called
/// `ty`; the number of types if there is none.
pub open spec fn vertex_index(infos: Seq<VertexInfoView>, ty: Seq<char>, from: int) -> int
    decreases infos.len() - from,
{
    if from < 0 || from >= infos.len() {
        infos.len() as int
    } else if infos[from].ty == ty {
        from
    } else {
        vertex_index(infos, ty, from + 1)
    }
}

/// Whether a vertex type called `ty` is among the infos.
pub open spec fn has_vertex_type(infos: Seq<VertexInfoView>, ty: Seq<char>) -> bool {
    exists|i: int| 0 <= i < infos.len() && infos[i].ty == ty
}

/// `vertex_index` gives the first type of the name at or after `from`, and
/// the number of types exactly when no type from there on has the name.
pub proof fn lemma_vertex_index(infos: Seq<VertexInfoView>, ty: Seq<char>, from: int)
    requires
        0 <= from <= infos.len(),
    ensures
        from <= vertex_index(infos, ty, from) <= infos.len(),
        vertex_index(infos, ty, from) < infos.len() ==> infos[vertex_index(infos, ty, from)].ty
            == ty,
        forall|i: int| from <= i < vertex_index(infos, ty, from) ==> infos[i].ty != ty,
    decreases infos.len() - from,
{
    if from < infos.len() && infos[from].ty != ty {
        lemma_vertex_index(infos, ty, from + 1);
    }
}

/// Whether an edge type connects `src` to `dst` under the name `edge`.
pub open spec fn edge_is(info: EdgeInfoView, src: Seq<char>, edge: Seq<char>, dst: Seq<char>) -> bool {
    info.src_type == src && info.edge_type == edge && info.dst_type == dst
}

/// The index of the first edge type at or after `from` that connects `src`
/// to `dst` under the name `edge`; the number of types if there is none.
pub open spec fn edge_index(
    infos: Seq<EdgeInfoView>,
    src: Seq<char>,
    edge: Seq<char>,
    dst: Seq<char>,
    from: int,
) -> int
    decreases infos.len() - from,
{
    if from < 0 || from >= infos.len() {
        infos.len() as int
    } else if edge_is(infos[from], src, edge, dst) {
        from
    } else {
        edge_index(infos, src, edge, dst, from + 1)
    }
}

/// Every edge type starts and ends at a vertex type that is declared.
pub open spec fn endpoints_declared(
    vertices: Seq<VertexInfoView>,
    edges: Seq<EdgeInfoView>,
) -> bool {
    forall|e: int|
        0 <= e < edges.len() ==> has_vertex_type(vertices, (#[trigger] edges[e]).src_type)
            && has_vertex_type(vertices, edges[e].dst_type)
}

/// The index of the first vertex type called `ty`, or the number of types.
pub fn find_vertex_info(infos: &Vec<VertexInfo>, ty: &str) -> (r: usize)
    ensures
        r == vertex_index(infos.deep_view(), ty@, 0),
        r <= infos@.len(),
        r < infos@.len() <==> has_vertex_type(infos.deep_view(), ty@),
{
    let ghost views = infos.deep_view();
    proof {
        lemma_vertex_index(views, ty@, 0);
    }
    let mut i: usize = 0;
    while i < infos.len()
        invariant
            0 <= i <= infos@.len(),
            views == infos.deep_view(),
            vertex_index(views, ty@, 0) == vertex_index(views, ty@, i as int),
        decreases infos@.len() - i,
    {
        if str_eq(infos[i].ty_str(), ty) {
            return i;
        }
        i += 1;
    }
    i
}

/// The index of the first edge type that connects `src` to `dst` under the
/// name `edge`, or the number of types.
pub fn find_edge_info(infos: &Vec<EdgeInfo>, src: &str, edge: &str, dst: &str) -> (r: usize)
    ensures
        r == edge_index(infos.deep_view(), src@, edge@, dst@, 0),
        r <= infos@.len(),
{
    let ghost views = infos.deep_view();
    let mut i: usize = 0;
    while i < infos.len()
        invariant
            0 <= i <= infos@.len(),
            views == infos.deep_view(),
            edge_index(views, src@, edge@, dst@, 0) == edge_index(
                views,
                src@,
                edge@,
                dst@,
                i as int,
            ),
        decreases infos@.len() - i,
    {
        let info = &infos[i];
        if str_eq(info.src_type_str(), src) && str_eq(info.edge_type_str(), edge) && str_eq(
            info.dst_type_str(),
            dst,
        ) {
            return i;
        }
        i += 1;
    }
    i
}

fn endpoints_are_declared(vertices: &Vec<VertexInfo>, edges: &Vec<EdgeInfo>) -> (r: bool)
    ensures
        r == endpoints_declared(vertices.deep_view(), edges.deep_view()),
{
    let ghost vs = vertices.deep_view();
    let ghost es = edges.deep_view();
    let mut e: usize = 0;
    while e < edges.len()
        invariant
            0 <= e <= edges@.len(),
            vs == vertices.deep_view(),
            es == edges.deep_view(),
            forall|k: int|
                0 <= k < e ==> has_vertex_type(vs, (#[trigger] es[k]).src_type) && has_vertex_type(
                    vs,
                    es[k].dst_type,
                ),
        decreases edges@.len() - e,
    {
        let info = &edges[e];
        let s = find_vertex_info(vertices, info.src_type_str());
        let d = find_vertex_info(vertices, info.dst_type_str());
        if s >= vertices.len() || d >= vertices.len() {
            assert(!(has_vertex_type(vs, es[e as int].src_type) && has_vertex_type(
                vs,
                es[e as int].dst_type,
            )));
            return false;
        }
        e += 1;
    }
    true
}

fn clone_vertex_infos(infos: &Vec<VertexInfo>) -> (r: Vec<VertexInfo>)
    ensures
        r.deep_view() == infos.deep_view(),
{
    let r = infos.clone();
    assert(r.deep_view() =~= infos.deep_view());
    r
}

fn clone_edge_infos(infos: &Vec<EdgeInfo>) -> (r: Vec<EdgeInfo>)
    ensures
        r.deep_view() == infos.deep_view(),
{
    let r = infos.clone();
    assert(r.deep_view() =~= infos.deep_view());
    r
}

/// A graph: its name, its vertex and edge types, its labels, where its files
/// lie, and the version of the format, if one is recorded.
#[derive(Debug)]
pub struct GraphInfo {
    name: String,
    vertex_infos: Vec<VertexInfo>,
    edge_infos: Vec<EdgeInfo>,
    labels: Vec<String>,
    prefix: String,
    version: Option<InfoVersion>,
}

/// What a graph is, as a mathematical value. The version `0` stands for no
/// recorded version.
pub struct GraphInfoView {
    pub name: Seq<char>,
    pub vertex_infos: Seq<VertexInfoView>,
    pub edge_infos: Seq<EdgeInfoView>,
    pub labels: Seq<Seq<char>>,
    pub prefix: Seq<char>,
    pub version: int,
}

/// What `GraphInfo::new` accepts: edge types whose endpoints are declared
/// vertex types, and no more types of either sort than the counters hold.
pub open spec fn graph_info_accepted(
    vertices: Seq<VertexInfoView>,
    edges: Seq<EdgeInfoView>,
) -> bool {
    &&& vertices.len() <= i32::MAX
    &&& edges.len() <= i32::MAX
    &&& endpoints_declared(vertices, edges)
}

/// Every vertex type of the list is well formed.
pub open spec fn vertex_infos_wf(infos: Seq<VertexInfoView>) -> bool {
    forall|i: int| 0 <= i < infos.len() ==> (#[trigger] infos[i]).wf()
}

/// Every edge type of the list is well formed.
pub open spec fn edge_infos_wf(infos: Seq<EdgeInfoView>) -> bool {
    forall|i: int| 0 <= i < infos.len() ==> (#[trigger] infos[i]).wf()
}

impl GraphInfoView {
    /// The vertex and edge types are well formed and fit the counters, every
    /// edge type starts and ends at a declared vertex type, and the version,
    /// if one is recorded, is supported.
    pub open spec fn wf(self) -> bool {
        &&& vertex_infos_wf(self.vertex_infos)
        &&& edge_infos_wf(self.edge_infos)
        &&& graph_info_accepted(self.vertex_infos, self.edge_infos)
        &&& self.version == 0 || supported_version(self.version)
    }
}

fn vertex_infos_are_wf(infos: &Vec<VertexInfo>)
    ensures
        vertex_infos_wf(infos.deep_view()),
{
    let mut i: usize = 0;
    while i < infos.len()
        invariant
            0 <= i <= infos@.len(),
            forall|k: int| 0 <= k < i ==> (#[trigger] infos.deep_view()[k]).wf(),
        decreases infos@.len() - i,
    {
        let _ = infos[i].property_groups_ref();
        i += 1;
    }
}

fn edge_infos_are_wf(infos: &Vec<EdgeInfo>)
    ensures
        edge_infos_wf(infos.deep_view()),
{
    let mut i: usize = 0;
    while i < infos.len()
        invariant
            0 <= i <= infos@.len(),
            forall|k: int| 0 <= k < i ==> (#[trigger] infos.deep_view()[k]).wf(),
        decreases infos@.len() - i,
    {
        let _ = infos[i].property_groups_ref();
        i += 1;
    }
}

impl View for GraphInfo {
    type V = GraphInfoView;

    closed spec fn view(&self) -> GraphInfoView {
        GraphInfoView {
            name: self.name@,
            vertex_infos: self.vertex_infos.deep_view(),
            edge_infos: self.edge_infos.deep_view(),
            labels: self.labels.deep_view(),
            prefix: self.prefix@,
            version: version_number(self.version),
        }
    }
}

impl DeepView for GraphInfo {
    type V = GraphInfoView;

    open spec fn deep_view(&self) -> GraphInfoView {
        self@
    }
}

impl Clone for GraphInfo {
    fn clone(&self) -> (r: Self)
        ensures
            r@ == self@,
    {
        proof {
            use_type_invariant(self);
        }
        GraphInfo {
            name: self.name.clone(),
            vertex_infos: clone_vertex_infos(&self.vertex_infos),
            edge_infos: clone_edge_infos(&self.edge_infos),
            labels: clone_strings(&self.labels),
            prefix: self.prefix.clone(),
            version: self.version,
        }
    }
}

impl GraphInfo {
    #[verifier::type_invariant]
    spec fn valid(&self) -> bool {
        self@.wf()
    }

    /// Describes a graph. Fails with `SchemaError` when an edge type starts
    /// or ends at a vertex type that is not among `vertex_infos`, or when
    /// there are more types of either sort than `i32::MAX`.
    pub fn new(
        name: &str,
        vertex_infos: &Vec<VertexInfo>,
        edge_infos: &Vec<EdgeInfo>,
        labels: &Vec<String>,
        prefix: &str,
        version: Option<InfoVersion>,
    ) -> (r: Result<Self, GraphError>)
        ensures
            graph_info_accepted(vertex_infos.deep_view(), edge_infos.deep_view()) ==> r is Ok
                && r->Ok_0@ == (GraphInfoView {
                name: name@,
                vertex_infos: vertex_infos.deep_view(),
                edge_infos: edge_infos.deep_view(),
                labels: labels.deep_view(),
                prefix: prefix@,
                version: version_number(version),
            }) && r->Ok_0@.wf(),
            !graph_info_accepted(vertex_infos.deep_view(), edge_infos.deep_view()) ==> r == Err::<
                Self,
                GraphError,
            >(GraphError::SchemaError),
    {
        if vertex_infos.len() > i32::MAX as usize || edge_infos.len() > i32::MAX as usize {
            return Err(GraphError::SchemaError);
        }
        if !endpoints_are_declared(vertex_infos, edge_infos) {
            return Err(GraphError::SchemaError);
        }
        vertex_infos_are_wf(vertex_infos);
        edge_infos_are_wf(edge_infos);
        match version {
            Some(v) => {
                let _ = v.version();
            },
            None => {},
        }
        Ok(
            GraphInfo {
                name: name.to_owned(),
                vertex_infos: clone_vertex_infos(vertex_infos),
                edge_infos: clone_edge_infos(edge_infos),
                labels: clone_strings(labels),
                prefix: prefix.to_owned(),
                version,
            },
        )
    }

    /// The name of the graph.
    pub fn name(&self) -> (r: String)
        ensures
            r@ == self@.name,
    {
        self.name.clone()
    }

    /// The labels of the graph.
    pub fn labels(&self) -> (r: Vec<String>)
        ensures
            r.deep_view() == self@.labels,
    {
        clone_strings(&self.labels)
    }

    /// The prefix under which the files of the graph lie.
    pub fn prefix(&self) -> (r: String)
        ensures
            r@ == self@.prefix,
    {
        self.prefix.clone()
    }

    /// The recorded version, if there is one.
    pub fn version(&self) -> (r: Option<InfoVersion>)
        ensures
            version_number(r) == self@.version,
            self@.wf(),
    {
        proof {
            use_type_invariant(self);
        }
        self.version
    }

    /// The first vertex type called `ty`; `None` when there is none.
    pub fn vertex_info(&self, ty: &str) -> (r: Option<VertexInfo>)
        ensures
            ({
                let i = vertex_index(self@.vertex_infos, ty@, 0);
                if i < self@.vertex_infos.len() {
                    r is Some && r->Some_0@ == self@.vertex_infos[i]
                } else {
                    r is None
                }
            }),
            r is Some <==> has_vertex_type(self@.vertex_infos, ty@),
    {
        let i = find_vertex_info(&self.vertex_infos, ty);
        if i < self.vertex_infos.len() {
            Some(self.vertex_infos[i].clone())
        } else {
            None
        }
    }

    /// The first edge type that connects `src_type` to `dst_type` under the
    /// name `edge_type`; `None` when there is none.
    pub fn edge_info(&self, src_type: &str, edge_type: &str, dst_type: &str) -> (r: Option<
        EdgeInfo,
    >)
        ensures
            ({
                let i = edge_index(self@.edge_infos, src_type@, edge_type@, dst_type@, 0);
                if i < self@.edge_infos.len() {
                    r is Some && r->Some_0@ == self@.edge_infos[i]
                } else {
                    r is None
                }
            }),
    {
        let i = find_edge_info(&self.edge_infos, src_type, edge_type, dst_type);
        if i < self.edge_infos.len() {
            Some(self.edge_infos[i].clone())
        } else {
            None
        }
    }

    /// The index of the first vertex type called `ty`; `-1` when there is
    /// none.
    pub fn vertex_info_index(&self, ty: &str) -> (r: i32)
        ensures
            ({
                let i = vertex_index(self@.vertex_infos, ty@, 0);
                if i < self@.vertex_infos.len() {
                    r == i
                } else {
                    r == -1
                }
            }),
    {
        proof {
            use_type_invariant(self);
        }
        let i = find_vertex_info(&self.vertex_infos, ty);
        if i < self.vertex_infos.len() {
            i as i32
        } else {
            -1
        }
    }

    /// The index of the first edge type that connects `src_type` to
    /// `dst_type` under the name `edge_type`; `-1` when there is none.
    pub fn edge_info_index(&self, src_type: &str, edge_type: &str, dst_type: &str) -> (r: i32)
        ensures
            ({
                let i = edge_index(self@.edge_infos, src_type@, edge_type@, dst_type@, 0);
                if i < self@.edge_infos.len() {
                    r == i
                } else {
                    r == -1
                }
            }),
    {
        proof {
            use_type_invariant(self);
        }
        let i = find_edge_info(&self.edge_infos, src_type, edge_type, dst_type);
        if i < self.edge_infos.len() {
            i as i32
        } else {
            -1
        }
    }

    /// The vertex types, borrowed.
    pub fn vertex_infos_ref(&self) -> (r: &Vec<VertexInfo>)
        ensures
            r.deep_view() == self@.vertex_infos,
            self@.wf(),
    {
        proof {
            use_type_invariant(self);
        }
        &self.vertex_infos
    }

    /// The edge types, borrowed.
    pub fn edge_infos_ref(&self) -> (r: &Vec<EdgeInfo>)
        ensures
            r.deep_view() == self@.edge_infos,
            self@.wf(),
    {
        proof {
            use_type_invariant(self);
        }
        &self.edge_infos
    }

    /// The vertex types of the graph, in their order.
    pub fn vertex_infos(&self) -> (r: Vec<VertexInfo>)
        ensures
            r.deep_view() == self@.vertex_infos,
    {
        clone_vertex_infos(&self.vertex_infos)
    }

    /// The edge types of the graph, in their order.
    pub fn edge_infos(&self) -> (r: Vec<EdgeInfo>)
        ensures
            r.deep_view() == self@.edge_infos,
    {
        clone_edge_infos(&self.edge_infos)
    }

    /// The number of vertex types.
    pub fn vertex_info_num(&self) -> (r: i32)
        ensures
            r == self@.vertex_infos.len(),
    {
        proof {
            use_type_invariant(self);
        }
        self.vertex_infos.len() as i32
    }

    /// The number of edge types.
    pub fn edge_info_num(&self) -> (r: i32)
        ensures
            r == self@.edge_infos.len(),
    {
        proof {
            use_type_invariant(self);
        }
        self.edge_infos.len() as i32
    }
}

} // verus!
