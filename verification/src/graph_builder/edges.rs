//! The builder that buffers the edges of one type and lays them out under
//! one adjacency kind.

use crate::adjacency::{distribute, gather, indices_with, ints, lemma_run_concat_split, run_concat};
use crate::chunk::{
    all_chunks, build_all_chunks, check_rows, chunk_count, chunk_rows, lemma_chunk_bounds,
    rows_fail, EdgeChunks, EdgeChunksView, EdgePartition, EdgePartitionView, Record, RecordView,
};
use crate::error::GraphError;
use crate::graph_builder::record::{EdgeBuilder, EdgeView};
use crate::graph_info::edge_info::{
    has_kind, kind_is_by_source, kind_is_ordered, AdjListType, EdgeInfo, EdgeInfoView,
};
use vstd::prelude::*;
use vstd::string::*;

verus! {

/// The endpoint by which an adjacency kind arranges an edge.
pub open spec fn pivot(e: EdgeView, kind: AdjListType) -> int {
    if kind_is_by_source(kind) {
        e.src as int
    } else {
        e.dst as int
    }
}

/// How many vertices one partition of an adjacency kind spans.
pub open spec fn pivot_size(info: EdgeInfoView, kind: AdjListType) -> int {
    if kind_is_by_source(kind) {
        info.src_chunk_size
    } else {
        info.dst_chunk_size
    }
}

/// The key by which an edge is put in its place: its pivot endpoint for an
/// ordered kind, the vertex chunk of its pivot endpoint for an unordered
/// one.
pub open spec fn bucket_key(e: EdgeView, kind: AdjListType, size: int) -> int {
    if kind_is_ordered(kind) {
        pivot(e, kind)
    } else {
        pivot(e, kind) / size
    }
}

/// The keys of the edges, in the order of insertion.
pub open spec fn bucket_keys(edges: Seq<EdgeView>, kind: AdjListType, size: int) -> Seq<int> {
    Seq::new(edges.len(), |i: int| bucket_key(edges[i], kind, size))
}

/// The first key of the partition `k`; for `k` the number of partitions, the
/// number of keys. An ordered kind has one key per vertex, an unordered one
/// one key per partition.
pub open spec fn part_lo(kind: AdjListType, size: int, vertices: int, k: int) -> int {
    if kind_is_ordered(kind) {
        if k * size <= vertices {
            k * size
        } else {
            vertices
        }
    } else {
        k
    }
}

/// The edges of the partition `k`, as positions in the order of insertion.
/// For an unordered kind these are the edges whose pivot endpoint lies in
/// the vertex chunk `k`, in the order of insertion; for an ordered kind the
/// same edges, sorted by the pivot endpoint, edges of one endpoint staying
/// in the order of insertion.
pub open spec fn partition_order(
    edges: Seq<EdgeView>,
    kind: AdjListType,
    size: int,
    vertices: int,
    k: int,
) -> Seq<int> {
    run_concat(
        bucket_keys(edges, kind, size),
        part_lo(kind, size, vertices, k),
        part_lo(kind, size, vertices, k + 1),
    )
}

/// The source and destination of the edges at the given positions.
pub open spec fn endpoints(edges: Seq<EdgeView>, order: Seq<int>) -> Seq<(i64, i64)> {
    order.map_values(|i: int| (edges[i].src, edges[i].dst))
}

/// The properties of the edges at the given positions.
pub open spec fn records_at(edges: Seq<EdgeView>, order: Seq<int>) -> Seq<RecordView> {
    order.map_values(|i: int| edges[i].properties)
}

/// The offset table of the partition `k` of an ordered kind: the entry `t`
/// is the number of rows whose pivot endpoint is below the vertex `t` of the
/// chunk; the last entry is the number of rows. An unordered kind has no
/// table.
pub open spec fn partition_offsets(
    edges: Seq<EdgeView>,
    kind: AdjListType,
    size: int,
    vertices: int,
    k: int,
) -> Seq<u64> {
    if kind_is_ordered(kind) {
        let lo = part_lo(kind, size, vertices, k);
        let hi = part_lo(kind, size, vertices, k + 1);
        Seq::new(
            (hi - lo + 1) as nat,
            |t: int| run_concat(bucket_keys(edges, kind, size), lo, lo + t).len() as u64,
        )
    } else {
        Seq::empty()
    }
}

/// The partition `k` of the edges.
pub open spec fn partition_of(
    edges: Seq<EdgeView>,
    kind: AdjListType,
    size: int,
    vertices: int,
    k: int,
) -> EdgePartitionView {
    EdgePartitionView {
        rows: endpoints(edges, partition_order(edges, kind, size, vertices, k)),
        offsets: partition_offsets(edges, kind, size, vertices, k),
    }
}

/// All edges in the order in which the partitions hold them, as positions in
/// the order of insertion.
pub open spec fn global_order(edges: Seq<EdgeView>, kind: AdjListType, size: int, vertices: int) -> Seq<
    int,
> {
    run_concat(
        bucket_keys(edges, kind, size),
        0,
        part_lo(kind, size, vertices, chunk_count(vertices, size)),
    )
}

/// The chunks that the edges make: one partition per vertex chunk of the
/// pivot side, and the property chunks of the rows of all partitions, one
/// after the other, cut every `chunk_size` rows.
pub open spec fn edge_chunks(
    info: EdgeInfoView,
    kind: AdjListType,
    vertices: int,
    edges: Seq<EdgeView>,
) -> EdgeChunksView {
    let size = pivot_size(info, kind);
    EdgeChunksView {
        partitions: Seq::new(
            chunk_count(vertices, size) as nat,
            |k: int| partition_of(edges, kind, size, vertices, k),
        ),
        groups: all_chunks(
            records_at(edges, global_order(edges, kind, size, vertices)),
            info.property_groups,
            info.chunk_size,
        ),
    }
}

/// Whether the pivot endpoint of an edge is no vertex.
pub open spec fn pivot_out_of_range(edges: Seq<EdgeView>, kind: AdjListType, vertices: int) -> bool {
    exists|i: int| 0 <= i < edges.len() && !(0 <= pivot(#[trigger] edges[i], kind) < vertices)
}

/// The properties of the edges, in the order of insertion.
pub open spec fn edge_records(edges: Seq<EdgeView>) -> Seq<RecordView> {
    Seq::new(edges.len(), |i: int| edges[i].properties)
}

/// What `dump` gives: `OutOfRangeError` when the pivot endpoint of an edge
/// is negative or not below the number of vertices; else
/// `MissingPropertyError` when an edge has no value for a property that is
/// not nullable; else `TypeMismatchError` when an edge has a value that is
/// not of the declared type; else the chunks.
pub open spec fn edges_dump(
    info: EdgeInfoView,
    kind: AdjListType,
    vertices: int,
    edges: Seq<EdgeView>,
) -> Result<EdgeChunksView, GraphError> {
    if pivot_out_of_range(edges, kind, vertices) {
        Err(GraphError::OutOfRangeError)
    } else if rows_fail(edge_records(edges), info.property_groups, false) {
        Err(GraphError::MissingPropertyError)
    } else if rows_fail(edge_records(edges), info.property_groups, true) {
        Err(GraphError::TypeMismatchError)
    } else {
        Ok(edge_chunks(info, kind, vertices, edges))
    }
}

/// Buffers the edges of one type, to lay them out under one adjacency kind.
#[derive(Debug)]
pub struct EdgesBuilder {
    edge_info: EdgeInfo,
    prefix: String,
    kind: AdjListType,
    vertices_num: usize,
    edges: Vec<EdgeBuilder>,
}

/// What an edges builder is, as a mathematical value.
pub struct EdgesBuilderView {
    pub info: EdgeInfoView,
    pub prefix: Seq<char>,
    pub kind: AdjListType,
    pub vertices_num: int,
    pub edges: Seq<EdgeView>,
}

impl View for EdgesBuilder {
    type V = EdgesBuilderView;

    closed spec fn view(&self) -> EdgesBuilderView {
        EdgesBuilderView {
            info: self.edge_info@,
            prefix: self.prefix@,
            kind: self.kind,
            vertices_num: self.vertices_num as int,
            edges: self.edges.deep_view(),
        }
    }
}

/// A vertex below the number of vertices lies in one of the vertex chunks.
pub proof fn lemma_vertex_in_partition(p: int, vertices: int, size: int)
    requires
        0 <= p < vertices,
        0 < size,
    ensures
        0 <= p / size < chunk_count(vertices, size),
{
    vstd::arithmetic::div_mod::lemma_fundamental_div_mod(p, size);
    vstd::arithmetic::div_mod::lemma_fundamental_div_mod(vertices, size);
    vstd::arithmetic::div_mod::lemma_mod_bound(p, size);
    vstd::arithmetic::div_mod::lemma_mod_bound(vertices, size);
    vstd::arithmetic::div_mod::lemma_div_is_ordered(p, vertices, size);
    vstd::arithmetic::div_mod::lemma_div_pos_is_pos(p, size);
    if p / size == vertices / size {
        assert(size * (p / size) + p % size < size * (p / size) + vertices % size);
    }
}

/// The first key of a partition and of the next one: for an ordered kind
/// the partition `k` spans the vertices of the vertex chunk `k`.
pub proof fn lemma_part_lo(kind: AdjListType, size: int, vertices: int, k: int)
    requires
        0 < size,
        0 <= vertices,
        0 <= k < chunk_count(vertices, size),
    ensures
        part_lo(kind, size, vertices, k) == if kind_is_ordered(kind) {
            k * size
        } else {
            k
        },
        part_lo(kind, size, vertices, k + 1) == if kind_is_ordered(kind) {
            k * size + chunk_rows(vertices, size, k)
        } else {
            k + 1
        },
        0 <= part_lo(kind, size, vertices, k) < part_lo(kind, size, vertices, k + 1) <= part_lo(
            kind,
            size,
            vertices,
            chunk_count(vertices, size),
        ),
        part_lo(kind, size, vertices, chunk_count(vertices, size)) == if kind_is_ordered(kind) {
            vertices
        } else {
            chunk_count(vertices, size)
        },
{
    lemma_chunk_bounds(vertices, size, k);
    vstd::arithmetic::div_mod::lemma_fundamental_div_mod(vertices, size);
    vstd::arithmetic::div_mod::lemma_mod_bound(vertices, size);
    let q = vertices / size;
    let count = chunk_count(vertices, size);
    assert((k + 1) * size == k * size + size) by (nonlinear_arith);
    assert(size * q == q * size) by (nonlinear_arith);
    if k == q {
        assert((k + 1) * size > vertices);
    }
    if vertices % size == 0 {
        assert(count * size == vertices);
    } else {
        assert(count * size == q * size + size) by (nonlinear_arith)
            requires
                count == q + 1,
        ;
    }
}

impl EdgesBuilder {
    /// A builder without edges for the type `edge_info`, to be laid out
    /// under the kind `adj_list_type`, over `vertices_num` vertices on the
    /// pivot side. Fails with `SchemaError` when the type has no adjacency
    /// list of the kind; else with `OutOfRangeError` when `vertices_num` is
    /// negative or above `usize::MAX`.
    pub fn new(
        edge_info: &EdgeInfo,
        path_prefix: &str,
        adj_list_type: AdjListType,
        vertices_num: i64,
    ) -> (r: Result<Self, GraphError>)
        ensures
            !has_kind(edge_info@.adjacent_lists, adj_list_type) ==> r == Err::<Self, GraphError>(
                GraphError::SchemaError,
            ),
            has_kind(edge_info@.adjacent_lists, adj_list_type) && !(0 <= vertices_num
                <= usize::MAX) ==> r == Err::<Self, GraphError>(GraphError::OutOfRangeError),
            has_kind(edge_info@.adjacent_lists, adj_list_type) && 0 <= vertices_num <= usize::MAX
                ==> r is Ok && r->Ok_0@ == (EdgesBuilderView {
                info: edge_info@,
                prefix: path_prefix@,
                kind: adj_list_type,
                vertices_num: vertices_num as int,
                edges: Seq::<EdgeView>::empty(),
            }),
    {
        if !edge_info.has_adjacent_list_type(adj_list_type) {
            return Err(GraphError::SchemaError);
        }
        if vertices_num < 0 || vertices_num as u64 > usize::MAX as u64 {
            return Err(GraphError::OutOfRangeError);
        }
        let b = EdgesBuilder {
            edge_info: edge_info.clone(),
            prefix: path_prefix.to_owned(),
            kind: adj_list_type,
            vertices_num: vertices_num as usize,
            edges: Vec::new(),
        };
        assert(b@.edges =~= Seq::<EdgeView>::empty());
        Ok(b)
    }

    /// Buffers an edge. Nothing is checked before `dump`.
    pub fn add_edge(&mut self, edge: EdgeBuilder) -> (r: Result<(), GraphError>)
        ensures
            r is Ok,
            final(self)@ == (EdgesBuilderView {
                edges: old(self)@.edges.push(edge@),
                ..old(self)@
            }),
    {
        self.edges.push(edge);
        assert(self@.edges =~= old(self)@.edges.push(edge@));
        Ok(())
    }

    /// The root under which the chunk files are to be written.
    pub fn prefix(&self) -> (r: &str)
        ensures
            r@ == self@.prefix,
    {
        self.prefix.as_str()
    }

    /// The edge type that is built.
    pub fn edge_info(&self) -> (r: &EdgeInfo)
        ensures
            r@ == self@.info,
    {
        &self.edge_info
    }

    /// The adjacency kind under which the edges are laid out.
    pub fn adj_list_type(&self) -> (r: AdjListType)
        ensures
            r == self@.kind,
    {
        self.kind
    }
}


impl EdgesBuilder {
    /// How many vertices one partition spans.
    fn partition_size(&self) -> (size: u64)
        ensures
            size == pivot_size(self@.info, self@.kind),
            size > 0,
    {
        if self.kind.is_by_source() {
            self.edge_info.src_chunk_size() as u64
        } else {
            self.edge_info.dst_chunk_size() as u64
        }
    }

    /// The key of every edge, or `OutOfRangeError` when the pivot endpoint
    /// of an edge is no vertex.
    fn keys(&self, size: u64) -> (r: Result<Vec<usize>, GraphError>)
        requires
            size == pivot_size(self@.info, self@.kind),
            size > 0,
        ensures
            match r {
                Ok(keys) => !pivot_out_of_range(self@.edges, self@.kind, self@.vertices_num)
                    && ints(keys@) == bucket_keys(self@.edges, self@.kind, size as int),
                Err(e) => e == GraphError::OutOfRangeError && pivot_out_of_range(
                    self@.edges,
                    self@.kind,
                    self@.vertices_num,
                ),
            },
    {
        let ghost es = self@.edges;
        let ordered = self.kind.is_ordered();
        let by_source = self.kind.is_by_source();
        let mut keys: Vec<usize> = Vec::new();
        let mut i: usize = 0;
        while i < self.edges.len()
            invariant
                0 <= i <= self.edges@.len(),
                es == self.edges.deep_view(),
                es == self@.edges,
                ordered == kind_is_ordered(self.kind),
                by_source == kind_is_by_source(self.kind),
                size > 0,
                keys@.len() == i,
                forall|j: int| 0 <= j < i ==> 0 <= pivot(#[trigger] es[j], self.kind) < self.vertices_num,
                forall|j: int|
                    0 <= j < i ==> (#[trigger] keys@[j]) as int == bucket_key(
                        es[j],
                        self.kind,
                        size as int,
                    ),
            decreases self.edges@.len() - i,
        {
            let edge = &self.edges[i];
            let p: i64 = if by_source {
                edge.src_id()
            } else {
                edge.dst_id()
            };
            assert(p == pivot(es[i as int], self.kind));
            if p < 0 || p as u64 >= self.vertices_num as u64 {
                return Err(GraphError::OutOfRangeError);
            }
            let key: usize = if ordered {
                p as usize
            } else {
                (p as u64 / size) as usize
            };
            keys.push(key);
            i += 1;
        }
        assert(ints(keys@) =~= bucket_keys(es, self.kind, size as int));
        Ok(keys)
    }

    /// The properties of the edges, in the order of insertion.
    fn records(&self) -> (rows: Vec<&Record>)
        ensures
            rows.deep_view() == edge_records(self@.edges),
    {
        let ghost es = self@.edges;
        let mut rows: Vec<&Record> = Vec::new();
        let mut i: usize = 0;
        while i < self.edges.len()
            invariant
                0 <= i <= self.edges@.len(),
                es == self.edges.deep_view(),
                rows@.len() == i,
                forall|k: int| 0 <= k < i ==> (#[trigger] rows@[k])@ == es[k].properties,
            decreases self.edges@.len() - i,
        {
            rows.push(self.edges[i].record());
            i += 1;
        }
        assert(rows.deep_view() =~= edge_records(es));
        rows
    }

    /// The partitions, and the properties of the edges in the order in which
    /// the partitions hold them.
    fn lay_out(&self, keys: &Vec<usize>, size: u64) -> (r: (Vec<EdgePartition>, Vec<&Record>))
        requires
            size == pivot_size(self@.info, self@.kind),
            size > 0,
            !pivot_out_of_range(self@.edges, self@.kind, self@.vertices_num),
            ints(keys@) == bucket_keys(self@.edges, self@.kind, size as int),
        ensures
            r.0.deep_view() == edge_chunks(
                self@.info,
                self@.kind,
                self@.vertices_num,
                self@.edges,
            ).partitions,
            r.1.deep_view() == records_at(
                self@.edges,
                global_order(self@.edges, self@.kind, size as int, self@.vertices_num),
            ),
    {
        let ghost es = self@.edges;
        let ghost ks = bucket_keys(es, self.kind, size as int);
        let kind = self.kind;
        let ordered = kind.is_ordered();
        let vertices: u64 = self.vertices_num as u64;
        let full: u64 = vertices / size;
        let rest: u64 = vertices % size;
        proof {
            vstd::arithmetic::div_mod::lemma_fundamental_div_mod(vertices as int, size as int);
            assert(size * (vertices / size) >= vertices / size) by (nonlinear_arith)
                requires
                    size > 0,
                    vertices / size >= 0,
            ;
        }
        let count: u64 = if rest == 0 {
            full
        } else {
            full + 1
        };
        let bucket_count: usize = if ordered {
            self.vertices_num
        } else {
            count as usize
        };
        proof {
            if count > 0 {
                lemma_part_lo(kind, size as int, vertices as int, count - 1);
            }
            assert(bucket_count == part_lo(kind, size as int, vertices as int, count as int));
            assert(ints(keys@).len() == keys@.len());
            assert(ks.len() == es.len());
            assert forall|i: int| 0 <= i < keys@.len() implies keys@[i] < bucket_count by {
                assert(ints(keys@)[i] == keys@[i]);
                assert(ks[i] == bucket_key(es[i], kind, size as int));
                assert(0 <= pivot(es[i], kind) < vertices);
                lemma_vertex_in_partition(pivot(es[i], kind), vertices as int, size as int);
            }
        }
        let buckets = distribute(keys, bucket_count);
        let mut partitions: Vec<EdgePartition> = Vec::new();
        let mut all: Vec<&Record> = Vec::new();
        let mut lo: usize = 0;
        let mut k: u64 = 0;
        assert(all.deep_view() =~= records_at(es, run_concat(ks, 0, 0)));
        while k < count
            invariant
                0 <= k <= count,
                size > 0,
                size == pivot_size(self@.info, self@.kind),
                vertices == self.vertices_num,
                full == vertices / size,
                rest == vertices % size,
                count == chunk_count(vertices as int, size as int),
                kind == self.kind,
                ordered == kind_is_ordered(kind),
                es == self.edges.deep_view(),
                es == self@.edges,
                ks == bucket_keys(es, kind, size as int),
                ks == ints(keys@),
                bucket_count == part_lo(kind, size as int, vertices as int, count as int),
                buckets@.len() == bucket_count,
                forall|b: int|
                    0 <= b < bucket_count ==> ints((#[trigger] buckets@[b])@) == indices_with(
                        ks,
                        b,
                    ),
                lo == part_lo(kind, size as int, vertices as int, k as int),
                lo <= bucket_count,
                partitions@.len() == k,
                forall|j: int|
                    0 <= j < k ==> (#[trigger] partitions@[j])@ == partition_of(
                        es,
                        kind,
                        size as int,
                        vertices as int,
                        j,
                    ),
                all.deep_view() == records_at(es, run_concat(ks, 0, lo as int)),
            decreases count - k,
        {
            proof {
                lemma_part_lo(kind, size as int, vertices as int, k as int);
                lemma_chunk_bounds(vertices as int, size as int, k as int);
            }
            let span: u64 = if !ordered {
                1
            } else if k < full {
                size
            } else {
                rest
            };
            let hi: usize = lo + span as usize;
            let (order, offsets) = gather(&buckets, lo, hi, Ghost(ks));
            proof {
                crate::adjacency::lemma_run_concat_keys(ks, lo as int, hi as int);
                lemma_run_concat_split(ks, 0, lo as int, hi as int);
            }
            let ghost before = all.deep_view();
            let mut rows: Vec<(i64, i64)> = Vec::new();
            let mut t: usize = 0;
            assert(ints(order@).take(0) =~= Seq::<int>::empty());
            assert(all.deep_view() =~= before + records_at(es, ints(order@).take(0)));
            assert(rows@ =~= endpoints(es, ints(order@).take(0)));
            while t < order.len()
                invariant
                    0 <= t <= order@.len(),
                    es == self.edges.deep_view(),
                    ks.len() == es.len(),
                    ints(order@) == run_concat(ks, lo as int, hi as int),
                    forall|s: int|
                        0 <= s < run_concat(ks, lo as int, hi as int).len() ==> 0 <= (
                        #[trigger] run_concat(ks, lo as int, hi as int)[s]) < ks.len(),
                    rows@ == endpoints(es, ints(order@).take(t as int)),
                    all.deep_view() == before + records_at(es, ints(order@).take(t as int)),
                decreases order@.len() - t,
            {
                assert(ints(order@)[t as int] == order@[t as int]);
                let edge = &self.edges[order[t]];
                let ghost rows_before = rows@;
                let ghost all_before = all.deep_view();
                rows.push((edge.src_id(), edge.dst_id()));
                all.push(edge.record());
                proof {
                    let prefix = ints(order@).take(t as int);
                    let next = ints(order@).take(t + 1);
                    let idx = order@[t as int] as int;
                    assert(next =~= prefix.push(idx));
                    assert(rows@ =~= endpoints(es, next));
                    assert(records_at(es, next) =~= records_at(es, prefix).push(es[idx].properties));
                    assert(all.deep_view() =~= all_before.push(es[idx].properties));
                    assert(all.deep_view() =~= before + records_at(es, next));
                }
                t += 1;
            }
            assert(ints(order@).take(order@.len() as int) =~= ints(order@));
            assert(before + records_at(es, run_concat(ks, lo as int, hi as int)) =~= records_at(
                es,
                run_concat(ks, 0, hi as int),
            ));
            let table = if ordered {
                offsets
            } else {
                Vec::new()
            };
            let part = EdgePartition { rows, offsets: table };
            assert(part@.offsets =~= partition_offsets(es, kind, size as int, vertices as int, k as int));
            partitions.push(part);
            lo = hi;
            k += 1;
        }
        assert(partitions.deep_view() =~= edge_chunks(
            self@.info,
            kind,
            vertices as int,
            es,
        ).partitions);
        (partitions, all)
    }

    /// Lays the buffered edges out. The edges are put into partitions by the
    /// vertex chunk of their pivot endpoint; for an ordered kind each
    /// partition is sorted by that endpoint, edges of one endpoint staying
    /// in the order of insertion, and gets its offset table; for an
    /// unordered kind the edges of a partition stay in the order of
    /// insertion. The properties of the rows of all partitions, one after
    /// the other, are cut into chunks of `chunk_size` rows.
    ///
    /// Fails with `OutOfRangeError` when the pivot endpoint of an edge is no
    /// vertex; else with `MissingPropertyError` when an edge has no value
    /// for a property that is not nullable; else with `TypeMismatchError`
    /// when an edge has a value that is not of the declared type.
    pub fn dump(&self) -> (r: Result<EdgeChunks, GraphError>)
        ensures
            match r {
                Ok(chunks) => edges_dump(
                    self@.info,
                    self@.kind,
                    self@.vertices_num,
                    self@.edges,
                ) == Ok::<EdgeChunksView, GraphError>(chunks@),
                Err(e) => edges_dump(self@.info, self@.kind, self@.vertices_num, self@.edges)
                    == Err::<EdgeChunksView, GraphError>(e),
            },
    {
        let size = self.partition_size();
        let keys = match self.keys(size) {
            Ok(keys) => keys,
            Err(e) => {
                return Err(e);
            },
        };
        let groups = self.edge_info.property_groups_ref();
        let records = self.records();
        if check_rows(&records, groups, false) {
            return Err(GraphError::MissingPropertyError);
        }
        if check_rows(&records, groups, true) {
            return Err(GraphError::TypeMismatchError);
        }
        let (partitions, rows) = self.lay_out(&keys, size);
        let chunk_size = self.edge_info.chunk_size() as u64;
        Ok(EdgeChunks { partitions, groups: build_all_chunks(&rows, groups, chunk_size) })
    }
}


/// The layout of a dump puts every edge into exactly one partition, the one
/// of the vertex chunk of its pivot endpoint: the edge stands in the rows of
/// that partition, and in the rows of all partitions it stands once.
pub proof fn lemma_layout_holds_every_edge(
    info: EdgeInfoView,
    kind: AdjListType,
    vertices: int,
    edges: Seq<EdgeView>,
    i: int,
)
    requires
        info.wf(),
        0 <= vertices,
        0 <= i < edges.len(),
        0 <= pivot(edges[i], kind) < vertices,
    ensures
        ({
            let size = pivot_size(info, kind);
            let k = pivot(edges[i], kind) / size;
            &&& 0 <= k < chunk_count(vertices, size)
            &&& partition_order(edges, kind, size, vertices, k).contains(i)
            &&& global_order(edges, kind, size, vertices).contains(i)
            &&& forall|a: int, b: int|
                0 <= a < b < global_order(edges, kind, size, vertices).len() ==> global_order(
                    edges,
                    kind,
                    size,
                    vertices,
                )[a] != global_order(edges, kind, size, vertices)[b]
        }),
{
    let size = pivot_size(info, kind);
    let keys = bucket_keys(edges, kind, size);
    let p = pivot(edges[i], kind);
    let k = p / size;
    let count = chunk_count(vertices, size);
    lemma_vertex_in_partition(p, vertices, size);
    lemma_part_lo(kind, size, vertices, k);
    lemma_chunk_bounds(vertices, size, k);
    vstd::arithmetic::div_mod::lemma_fundamental_div_mod(p, size);
    vstd::arithmetic::div_mod::lemma_fundamental_div_mod(vertices, size);
    vstd::arithmetic::div_mod::lemma_mod_bound(p, size);
    vstd::arithmetic::div_mod::lemma_mod_bound(vertices, size);
    assert(size * k == k * size) by (nonlinear_arith);
    if k == vertices / size {
        assert(size * k + p % size < size * k + vertices % size);
    }
    let lo = part_lo(kind, size, vertices, k);
    let hi = part_lo(kind, size, vertices, k + 1);
    let top = part_lo(kind, size, vertices, count);
    assert(lo <= keys[i] < hi);
    crate::adjacency::lemma_run_concat_complete(keys, lo, hi, i);
    crate::adjacency::lemma_run_concat_complete(keys, 0, top, i);
    crate::adjacency::lemma_run_concat_sorted(keys, 0, top);
}

/// The rows of a partition of a dump are in order. Under an ordered kind the
/// pivot endpoints ascend along the rows, and edges of one endpoint stand in
/// the order of insertion: a stable sort. Under an unordered kind all edges
/// of the partition stand in the order of insertion.
pub proof fn lemma_partition_in_order(
    info: EdgeInfoView,
    kind: AdjListType,
    vertices: int,
    edges: Seq<EdgeView>,
    k: int,
    a: int,
    b: int,
)
    requires
        info.wf(),
        0 <= vertices,
        0 <= k < chunk_count(vertices, pivot_size(info, kind)),
        0 <= a < b < partition_order(edges, kind, pivot_size(info, kind), vertices, k).len(),
    ensures
        ({
            let order = partition_order(edges, kind, pivot_size(info, kind), vertices, k);
            let x = order[a];
            let y = order[b];
            &&& 0 <= x < edges.len()
            &&& 0 <= y < edges.len()
            &&& if kind_is_ordered(kind) {
                pivot(edges[x], kind) < pivot(edges[y], kind) || (pivot(edges[x], kind) == pivot(
                    edges[y],
                    kind,
                ) && x < y)
            } else {
                x < y
            }
        }),
{
    let size = pivot_size(info, kind);
    let keys = bucket_keys(edges, kind, size);
    let lo = part_lo(kind, size, vertices, k);
    let hi = part_lo(kind, size, vertices, k + 1);
    lemma_part_lo(kind, size, vertices, k);
    crate::adjacency::lemma_run_concat_sorted(keys, lo, hi);
    crate::adjacency::lemma_run_concat_keys(keys, lo, hi);
    let order = run_concat(keys, lo, hi);
    let x = order[a];
    let y = order[b];
    assert(keys[x] < keys[y] || (keys[x] == keys[y] && x < y));
    if !kind_is_ordered(kind) {
        assert(lo <= keys[x] < hi && lo <= keys[y] < hi);
    }
}

/// Every row of a partition of a dump is an edge whose pivot endpoint lies
/// in the vertex chunk of the partition.
pub proof fn lemma_partition_members(
    info: EdgeInfoView,
    kind: AdjListType,
    vertices: int,
    edges: Seq<EdgeView>,
    k: int,
    a: int,
)
    requires
        info.wf(),
        0 <= vertices,
        0 <= k < chunk_count(vertices, pivot_size(info, kind)),
        0 <= a < partition_order(edges, kind, pivot_size(info, kind), vertices, k).len(),
    ensures
        ({
            let size = pivot_size(info, kind);
            let x = partition_order(edges, kind, size, vertices, k)[a];
            &&& 0 <= x < edges.len()
            &&& pivot(edges[x], kind) / size == k
            &&& kind_is_ordered(kind) ==> k * size <= pivot(edges[x], kind) < vertices
        }),
{
    let size = pivot_size(info, kind);
    let keys = bucket_keys(edges, kind, size);
    let lo = part_lo(kind, size, vertices, k);
    let hi = part_lo(kind, size, vertices, k + 1);
    lemma_part_lo(kind, size, vertices, k);
    lemma_chunk_bounds(vertices, size, k);
    crate::adjacency::lemma_run_concat_keys(keys, lo, hi);
    let x = run_concat(keys, lo, hi)[a];
    assert(lo <= keys[x] < hi);
    if kind_is_ordered(kind) {
        let p = pivot(edges[x], kind);
        assert(k * size <= p < k * size + size);
        vstd::arithmetic::div_mod::lemma_fundamental_div_mod_converse(p, size, k, p - k * size);
    }
}

} // verus!
