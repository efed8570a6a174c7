//! What holds of the edges that a dump lays out under an ordered adjacency
//! kind, when a collection reads them back: the edges of one pivot endpoint
//! stand in one run of rows, in the order of insertion, and the offset table
//! leads to the first of them.

use crate::adjacency::{
    indices_with, lemma_indices_with, lemma_run_concat_bound, lemma_run_concat_index,
    lemma_run_concat_keys, lemma_run_concat_locate, lemma_run_concat_split, run_concat,
};
use crate::chunk::{cell_of, chunk_count, lemma_chunk_bounds, lemma_stored_cell};
use crate::error::GraphError;
use crate::graph_builder::edges::{
    bucket_keys, edge_chunks, endpoints, global_order, lemma_part_lo, lemma_vertex_in_partition,
    part_lo, partition_order, pivot, pivot_out_of_range, pivot_size, records_at,
};
use crate::graph_builder::record::EdgeView;
use crate::graph_info::edge_info::{kind_is_by_source, kind_is_ordered, AdjListType, EdgeInfoView};
use crate::graph_info::property::group_index;
use crate::graph_reader::edges::{rows_before, EdgePos, EdgesView};
use crate::value::ValueView;
use vstd::prelude::*;

verus! {

/// The collection over all partitions of the chunks that a dump of `edges`
/// makes.
pub open spec fn dumped(
    info: EdgeInfoView,
    kind: AdjListType,
    vertices: int,
    edges: Seq<EdgeView>,
) -> EdgesView {
    EdgesView {
        info,
        kind,
        chunks: edge_chunks(info, kind, vertices, edges),
        begin: 0,
        end: chunk_count(vertices, pivot_size(info, kind)),
    }
}

/// The edges with the pivot endpoint `id`, as positions in the order of
/// insertion.
pub open spec fn edges_of(edges: Seq<EdgeView>, kind: AdjListType, size: int, id: int) -> Seq<int> {
    indices_with(bucket_keys(edges, kind, size), id)
}

/// The place at which the edges with the pivot endpoint `id` start in an
/// ordered layout: in the partition of the vertex, after the rows of the
/// smaller vertices of that partition.
pub open spec fn run_start(
    edges: Seq<EdgeView>,
    kind: AdjListType,
    size: int,
    vertices: int,
    id: int,
) -> EdgePos {
    EdgePos {
        part: id / size,
        row: run_concat(
            bucket_keys(edges, kind, size),
            part_lo(kind, size, vertices, id / size),
            id,
        ).len() as int,
    }
}

/// What the laws below ask of a dump: a well-formed edge type, an ordered
/// kind, no more edges than a machine can hold, and every pivot endpoint a
/// vertex.
pub open spec fn ordered_dump(
    info: EdgeInfoView,
    kind: AdjListType,
    vertices: int,
    edges: Seq<EdgeView>,
) -> bool {
    &&& info.wf()
    &&& kind_is_ordered(kind)
    &&& 0 <= vertices
    &&& edges.len() <= usize::MAX
    &&& !pivot_out_of_range(edges, kind, vertices)
}

/// The partition of a vertex spans it.
proof fn lemma_vertex_span(kind: AdjListType, size: int, vertices: int, id: int)
    requires
        kind_is_ordered(kind),
        0 < size,
        0 <= id < vertices,
    ensures
        0 <= id / size < chunk_count(vertices, size),
        part_lo(kind, size, vertices, id / size) == (id / size) * size,
        part_lo(kind, size, vertices, id / size) <= id < part_lo(kind, size, vertices, id / size + 1),
        id - part_lo(kind, size, vertices, id / size) == id % size,
        part_lo(kind, size, vertices, id / size + 1) <= vertices,
        part_lo(kind, size, vertices, id / size + 1) - part_lo(kind, size, vertices, id / size)
            <= size,
{
    let k = id / size;
    lemma_vertex_in_partition(id, vertices, size);
    lemma_part_lo(kind, size, vertices, k);
    lemma_chunk_bounds(vertices, size, k);
    vstd::arithmetic::div_mod::lemma_fundamental_div_mod(id, size);
    vstd::arithmetic::div_mod::lemma_fundamental_div_mod(vertices, size);
    vstd::arithmetic::div_mod::lemma_mod_bound(id, size);
    vstd::arithmetic::div_mod::lemma_mod_bound(vertices, size);
    assert(size * k == k * size) by (nonlinear_arith);
    if k == vertices / size {
        assert(size * k + id % size < size * k + vertices % size);
    }
}

/// The rows before a partition of a dump are the rows of the smaller keys.
proof fn lemma_dump_rows_before(
    info: EdgeInfoView,
    kind: AdjListType,
    vertices: int,
    edges: Seq<EdgeView>,
    k: int,
)
    requires
        info.wf(),
        0 <= vertices,
        0 <= k <= chunk_count(vertices, pivot_size(info, kind)),
    ensures
        rows_before(edge_chunks(info, kind, vertices, edges).partitions, k) == run_concat(
            bucket_keys(edges, kind, pivot_size(info, kind)),
            0,
            part_lo(kind, pivot_size(info, kind), vertices, k),
        ).len(),
    decreases k,
{
    let size = pivot_size(info, kind);
    let keys = bucket_keys(edges, kind, size);
    if k > 0 {
        lemma_dump_rows_before(info, kind, vertices, edges, k - 1);
        lemma_part_lo(kind, size, vertices, k - 1);
        lemma_run_concat_split(
            keys,
            0,
            part_lo(kind, size, vertices, k - 1),
            part_lo(kind, size, vertices, k),
        );
        let partitions = edge_chunks(info, kind, vertices, edges).partitions;
        assert(partitions[k - 1].rows.len() == partition_order(
            edges,
            kind,
            size,
            vertices,
            k - 1,
        ).len());
    } else {
        assert(0 * size == 0) by (nonlinear_arith);
    }
}

/// What the first place at or after a place is: the end, or a place at
/// which an edge stands; the place itself where an edge stands there, else
/// the first row of a later partition, with no rows between.
pub proof fn lemma_seek(view: EdgesView, part: int, row: int)
    requires
        0 <= part,
        0 <= row,
        view.end <= view.chunks.partitions.len(),
    ensures
        ({
            let p = view.seek(part, row);
            &&& p == view.end_pos() || view.valid(p)
            &&& part < view.end && row < view.rows_in(part) ==> p == EdgePos { part, row }
            &&& part < view.end && p != (EdgePos { part, row }) ==> p.part > part && p.row == 0
            &&& part >= view.end ==> p == view.end_pos()
            &&& forall|q: int| part < q < p.part ==> view.rows_in(q) == 0
        }),
    decreases view.end - part,
{
    if part < view.end && row >= view.rows_in(part) {
        lemma_seek(view, part + 1, 0);
    }
}

/// Under an ordered kind, the offset table leads from any place at or
/// before the first edge of a vertex to that edge: `locate` gives the place
/// at which the edges of the vertex start.
pub proof fn lemma_ordered_find(
    info: EdgeInfoView,
    kind: AdjListType,
    vertices: int,
    edges: Seq<EdgeView>,
    id: int,
    part: int,
    row: int,
)
    requires
        ordered_dump(info, kind, vertices, edges),
        0 <= id < vertices,
        edges_of(edges, kind, pivot_size(info, kind), id).len() > 0,
        0 <= part,
        0 <= row,
        part < run_start(edges, kind, pivot_size(info, kind), vertices, id).part || (part
            == run_start(edges, kind, pivot_size(info, kind), vertices, id).part && row
            <= run_start(edges, kind, pivot_size(info, kind), vertices, id).row),
    ensures
        ({
            let view = dumped(info, kind, vertices, edges);
            let start = run_start(edges, kind, pivot_size(info, kind), vertices, id);
            &&& view.locate(part, row, id, kind_is_by_source(kind)) == start
            &&& view.valid(start)
        }),
{
    let size = pivot_size(info, kind);
    let keys = bucket_keys(edges, kind, size);
    let view = dumped(info, kind, vertices, edges);
    let k = id / size;
    let lo = part_lo(kind, size, vertices, k);
    let hi = part_lo(kind, size, vertices, k + 1);
    let i = id % size;
    lemma_vertex_span(kind, size, vertices, id);
    lemma_run_concat_index(keys, lo, hi, id, 0);
    lemma_run_concat_bound(keys, lo, id);
    lemma_run_concat_bound(keys, lo, id + 1);
    lemma_run_concat_bound(keys, lo, hi);
    let partition = view.chunks.partitions[k];
    assert(partition.rows.len() == run_concat(keys, lo, hi).len());
    assert(partition.offsets.len() == hi - lo + 1);
    assert(partition.offsets[i] == run_concat(keys, lo, lo + i).len() as u64);
    assert(partition.offsets[i + 1] == run_concat(keys, lo, lo + (i + 1)).len() as u64);
}

/// Under an ordered kind, the edges of a vertex stand in the rows from the
/// start of its run on, in the order of insertion: the row `t` of the run
/// holds the edge that was inserted as number `t` among the edges of the
/// vertex. `next_src` (or `next_dst`, by the kind) leads from each of them to
/// the next; from the last it leads to the end or to an edge of another
/// vertex.
pub proof fn lemma_ordered_run(
    info: EdgeInfoView,
    kind: AdjListType,
    vertices: int,
    edges: Seq<EdgeView>,
    id: int,
    t: int,
)
    requires
        ordered_dump(info, kind, vertices, edges),
        0 <= id < vertices,
        0 <= t < edges_of(edges, kind, pivot_size(info, kind), id).len(),
    ensures
        ({
            let view = dumped(info, kind, vertices, edges);
            let by_source = kind_is_by_source(kind);
            let run = edges_of(edges, kind, pivot_size(info, kind), id);
            let start = run_start(edges, kind, pivot_size(info, kind), vertices, id);
            let pos = EdgePos { part: start.part, row: start.row + t };
            let next = view.next_same(pos, by_source);
            &&& 0 <= run[t] < edges.len()
            &&& pivot(edges[run[t]], kind) == id
            &&& view.valid(pos)
            &&& view.chunks.partitions[pos.part].rows[pos.row] == (
                edges[run[t]].src,
                edges[run[t]].dst,
            )
            &&& view.endpoint(pos.part, pos.row, by_source) == id
            &&& t + 1 < run.len() ==> next == EdgePos { part: pos.part, row: pos.row + 1 }
            &&& t + 1 == run.len() ==> !view.valid(next) || view.endpoint(
                next.part,
                next.row,
                by_source,
            ) != id
        }),
{
    let size = pivot_size(info, kind);
    let keys = bucket_keys(edges, kind, size);
    let view = dumped(info, kind, vertices, edges);
    let by_source = kind_is_by_source(kind);
    let run = edges_of(edges, kind, size, id);
    let k = id / size;
    let lo = part_lo(kind, size, vertices, k);
    let hi = part_lo(kind, size, vertices, k + 1);
    let b = run_concat(keys, lo, id).len() as int;
    let pos = EdgePos { part: k, row: b + t };
    lemma_vertex_span(kind, size, vertices, id);
    lemma_indices_with(keys, id);
    lemma_run_concat_index(keys, lo, hi, id, t);
    let order = partition_order(edges, kind, size, vertices, k);
    assert(order == run_concat(keys, lo, hi));
    assert(order[b + t] == run[t]);
    let partition = view.chunks.partitions[k];
    assert(partition.rows == endpoints(edges, order));
    assert(partition.rows[b + t] == (edges[run[t]].src, edges[run[t]].dst));
    assert(keys[run[t]] == pivot(edges[run[t]], kind));
    if t + 1 < run.len() {
        lemma_run_concat_index(keys, lo, hi, id, t + 1);
        lemma_seek(view, k, b + t + 1);
    } else {
        lemma_seek(view, k, b + t + 1);
        let next = view.step(pos);
        assert(next == view.next_same(pos, by_source));
        if view.valid(next) {
            let k2 = next.part;
            let lo2 = part_lo(kind, size, vertices, k2);
            let hi2 = part_lo(kind, size, vertices, k2 + 1);
            lemma_part_lo(kind, size, vertices, k2);
            let order2 = partition_order(edges, kind, size, vertices, k2);
            assert(view.chunks.partitions[k2].rows == endpoints(edges, order2));
            lemma_run_concat_keys(keys, lo2, hi2);
            let j = order2[next.row];
            assert(0 <= j < keys.len() && lo2 <= keys[j] < hi2);
            assert(keys[j] == pivot(edges[j], kind));
            assert(view.endpoint(k2, next.row, by_source) == keys[j]);
            if keys[j] == id {
                if k2 == k {
                    lemma_run_concat_locate(keys, lo, hi, id, next.row);
                } else {
                    assert(k2 > k);
                    assert(k2 * size >= (k + 1) * size) by (nonlinear_arith)
                        requires
                            k2 >= k + 1,
                            size > 0,
                    ;
                    assert((k + 1) * size == k * size + size) by (nonlinear_arith);
                }
            }
        }
    }
}

/// Under an ordered kind, the properties of the edge in the row `t` of the
/// run of a vertex are those of the edge that was inserted as number `t`
/// among the edges of the vertex: for every declared property, its value,
/// and `None` where it has none.
pub proof fn lemma_ordered_cell(
    info: EdgeInfoView,
    kind: AdjListType,
    vertices: int,
    edges: Seq<EdgeView>,
    id: int,
    t: int,
    name: Seq<char>,
)
    requires
        ordered_dump(info, kind, vertices, edges),
        0 <= id < vertices,
        0 <= t < edges_of(edges, kind, pivot_size(info, kind), id).len(),
        group_index(info.property_groups, name, 0) < info.property_groups.len(),
    ensures
        ({
            let view = dumped(info, kind, vertices, edges);
            let run = edges_of(edges, kind, pivot_size(info, kind), id);
            let start = run_start(edges, kind, pivot_size(info, kind), vertices, id);
            let pos = EdgePos { part: start.part, row: start.row + t };
            view.cell(pos, name) == Ok::<Option<ValueView>, GraphError>(
                cell_of(edges[run[t]].properties, name),
            )
        }),
{
    let size = pivot_size(info, kind);
    let keys = bucket_keys(edges, kind, size);
    let view = dumped(info, kind, vertices, edges);
    let run = edges_of(edges, kind, size, id);
    let k = id / size;
    let count = chunk_count(vertices, size);
    let lo = part_lo(kind, size, vertices, k);
    let top = part_lo(kind, size, vertices, count);
    let b = run_concat(keys, lo, id).len() as int;
    lemma_ordered_run(info, kind, vertices, edges, id, t);
    lemma_vertex_span(kind, size, vertices, id);
    lemma_part_lo(kind, size, vertices, k);
    lemma_dump_rows_before(info, kind, vertices, edges, k);
    lemma_run_concat_split(keys, 0, lo, top);
    lemma_run_concat_index(keys, lo, top, id, t);
    let all = global_order(edges, kind, size, vertices);
    let before = run_concat(keys, 0, lo).len() as int;
    assert(all == run_concat(keys, 0, lo) + run_concat(keys, lo, top));
    assert(all[before + b + t] == run[t]);
    let records = records_at(edges, all);
    assert(records[before + b + t] == edges[run[t]].properties);
    assert(0 * info.chunk_size == 0) by (nonlinear_arith);
    lemma_stored_cell(info.property_groups, info.chunk_size, records, 0, before + b + t, name);
}


/// Under an ordered kind, an iterator at the first edge finds the edges of
/// every vertex that has edges: `locate` leads from the first place to the
/// start of the run of the vertex.
pub proof fn lemma_ordered_find_from_first(
    info: EdgeInfoView,
    kind: AdjListType,
    vertices: int,
    edges: Seq<EdgeView>,
    id: int,
)
    requires
        ordered_dump(info, kind, vertices, edges),
        0 <= id < vertices,
        edges_of(edges, kind, pivot_size(info, kind), id).len() > 0,
    ensures
        ({
            let view = dumped(info, kind, vertices, edges);
            let start = run_start(edges, kind, pivot_size(info, kind), vertices, id);
            let first = view.first();
            &&& view.locate(first.part, first.row, id, kind_is_by_source(kind)) == start
            &&& view.valid(start)
        }),
{
    let size = pivot_size(info, kind);
    let view = dumped(info, kind, vertices, edges);
    let start = run_start(edges, kind, size, vertices, id);
    lemma_ordered_run(info, kind, vertices, edges, id, 0);
    lemma_vertex_span(kind, size, vertices, id);
    lemma_seek(view, 0, 0);
    let first = view.first();
    if first.part > start.part {
        if start.part > 0 {
            assert(view.rows_in(start.part) == 0);
        }
    }
    lemma_ordered_find(info, kind, vertices, edges, id, first.part, first.row);
}

/// Under an ordered kind, an edge with the pivot endpoint `id` stands only
/// in the run of the vertex: in its partition, from the start of the run on.
pub proof fn lemma_ordered_only_in_run(
    info: EdgeInfoView,
    kind: AdjListType,
    vertices: int,
    edges: Seq<EdgeView>,
    id: int,
    part: int,
    row: int,
)
    requires
        ordered_dump(info, kind, vertices, edges),
        0 <= id < vertices,
        dumped(info, kind, vertices, edges).valid(EdgePos { part, row }),
        dumped(info, kind, vertices, edges).endpoint(part, row, kind_is_by_source(kind)) == id,
    ensures
        ({
            let size = pivot_size(info, kind);
            let start = run_start(edges, kind, size, vertices, id);
            part == start.part && start.row <= row < start.row + edges_of(edges, kind, size, id).len()
        }),
{
    let size = pivot_size(info, kind);
    let keys = bucket_keys(edges, kind, size);
    let view = dumped(info, kind, vertices, edges);
    let k = id / size;
    lemma_vertex_span(kind, size, vertices, id);
    let lo2 = part_lo(kind, size, vertices, part);
    let hi2 = part_lo(kind, size, vertices, part + 1);
    lemma_part_lo(kind, size, vertices, part);
    lemma_chunk_bounds(vertices, size, part);
    let order = partition_order(edges, kind, size, vertices, part);
    assert(view.chunks.partitions[part].rows == endpoints(edges, order));
    lemma_run_concat_keys(keys, lo2, hi2);
    let j = order[row];
    assert(0 <= j < keys.len() && lo2 <= keys[j] < hi2);
    assert(keys[j] == pivot(edges[j], kind));
    assert(keys[j] == id);
    if part < k {
        assert((part + 1) * size <= k * size) by (nonlinear_arith)
            requires
                part + 1 <= k,
                size > 0,
        ;
        assert((part + 1) * size == part * size + size) by (nonlinear_arith);
    } else if part > k {
        assert(part * size >= (k + 1) * size) by (nonlinear_arith)
            requires
                part >= k + 1,
                size > 0,
        ;
        assert((k + 1) * size == k * size + size) by (nonlinear_arith);
    } else {
        lemma_run_concat_locate(keys, lo2, hi2, id, row);
        lemma_indices_with(keys, id);
        assert(run_concat(keys, lo2, id + 1) == run_concat(keys, lo2, id) + indices_with(keys, id));
    }
}

/// Under an ordered kind, the offset table leads to the same edge as going
/// through the rows: from any place at or before the first edge of a vertex,
/// the first edge at or after the place with the vertex as pivot endpoint is
/// the one at which the run of the vertex starts.
pub proof fn lemma_ordered_find_is_first(
    info: EdgeInfoView,
    kind: AdjListType,
    vertices: int,
    edges: Seq<EdgeView>,
    id: int,
    part: int,
    row: int,
)
    requires
        ordered_dump(info, kind, vertices, edges),
        0 <= id < vertices,
        edges_of(edges, kind, pivot_size(info, kind), id).len() > 0,
        0 <= part,
        0 <= row,
        part < run_start(edges, kind, pivot_size(info, kind), vertices, id).part || (part
            == run_start(edges, kind, pivot_size(info, kind), vertices, id).part && row
            <= run_start(edges, kind, pivot_size(info, kind), vertices, id).row),
    ensures
        ({
            let view = dumped(info, kind, vertices, edges);
            let by_source = kind_is_by_source(kind);
            view.scan(part, row, id, by_source) == view.locate(part, row, id, by_source)
        }),
{
    let size = pivot_size(info, kind);
    let view = dumped(info, kind, vertices, edges);
    let by_source = kind_is_by_source(kind);
    let start = run_start(edges, kind, size, vertices, id);
    lemma_ordered_find(info, kind, vertices, edges, id, part, row);
    lemma_ordered_run(info, kind, vertices, edges, id, 0);
    crate::graph_reader::edges::lemma_scan(view, part, row, id, by_source);
    let found = view.scan(part, row, id, by_source);
    assert(view.endpoint(start.part, start.row, by_source) == id);
    if found != view.end_pos() {
        lemma_ordered_only_in_run(info, kind, vertices, edges, id, found.part, found.row);
    }
}

} // verus!
