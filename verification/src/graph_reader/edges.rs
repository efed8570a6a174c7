//! Reading the edges of one type under one adjacency kind: row by row
//! through the partitions, and by endpoint, with the offset table where the
//! kind is ordered by that endpoint.

use crate::chunk::{
    cell_view, chunk_count, read_stored_cell, stored_cell, EdgeChunks, EdgeChunksView,
    EdgePartitionView,
};
use crate::error::GraphError;
use crate::graph_builder::edges::pivot_size;
use crate::graph_info::edge_info::{
    has_kind, kind_is_by_source, kind_is_ordered, AdjListType, EdgeInfo, EdgeInfoView,
};
use crate::graph_info::graph::{edge_index, GraphInfo};
use crate::graph_reader::property_type::{
    declared_type, find_declared_type, read_cell, typed_read, SupportedPropertyType,
};
use crate::value::{Value, ValueView};
use core::ops::Range;
use vstd::prelude::*;
use vstd::std_specs::cmp::PartialEqSpecImpl;

verus! {

/// A place among the edges: a partition and a row in it.
pub struct EdgePos {
    pub part: int,
    pub row: int,
}

/// How many rows the partitions before `k` hold.
pub open spec fn rows_before(partitions: Seq<EdgePartitionView>, k: int) -> int
    decreases k,
{
    if k <= 0 {
        0
    } else {
        rows_before(partitions, k - 1) + partitions[k - 1].rows.len()
    }
}

/// How many chunks of `size` rows the partitions before `k` fill, each
/// partition starting a chunk of its own.
pub open spec fn chunks_before(partitions: Seq<EdgePartitionView>, size: int, k: int) -> int
    decreases k,
{
    if k <= 0 {
        0
    } else {
        chunks_before(partitions, size, k - 1) + chunk_count(
            partitions[k - 1].rows.len() as int,
            size,
        )
    }
}

/// The rows before a partition grow with the partition.
pub proof fn lemma_rows_before_monotone(partitions: Seq<EdgePartitionView>, a: int, b: int)
    requires
        a <= b,
    ensures
        0 <= rows_before(partitions, a) <= rows_before(partitions, b),
    decreases b - a, b,
{
    if b <= 0 {
    } else if a == b {
        lemma_rows_before_monotone(partitions, a - 1, b - 1);
    } else {
        lemma_rows_before_monotone(partitions, a, b - 1);
    }
}

/// A partition does not fill more chunks than it has rows.
pub proof fn lemma_chunks_before_bound(partitions: Seq<EdgePartitionView>, size: int, k: int)
    requires
        0 < size,
    ensures
        0 <= chunks_before(partitions, size, k) <= rows_before(partitions, k),
    decreases k,
{
    if k > 0 {
        lemma_chunks_before_bound(partitions, size, k - 1);
        let n = partitions[k - 1].rows.len() as int;
        vstd::arithmetic::div_mod::lemma_fundamental_div_mod(n, size);
        vstd::arithmetic::div_mod::lemma_mod_bound(n, size);
        vstd::arithmetic::div_mod::lemma_div_pos_is_pos(n, size);
        assert(size * (n / size) >= n / size) by (nonlinear_arith)
            requires
                size > 0,
                n / size >= 0,
        ;
    }
}

/// Whether edges are found by the offset table: the kind is ordered by the
/// endpoint that is asked for.
pub open spec fn kind_matches(kind: AdjListType, by_source: bool) -> bool {
    kind_is_ordered(kind) && kind_is_by_source(kind) == by_source
}

/// What a collection of edges is, as a mathematical value: the schema, the
/// adjacency kind, the chunks, and the range `begin..end` of partitions to
/// which the collection is restricted.
pub struct EdgesView {
    pub info: EdgeInfoView,
    pub kind: AdjListType,
    pub chunks: EdgeChunksView,
    pub begin: int,
    pub end: int,
}

impl EdgesView {
    /// How many rows the partition `part` holds.
    pub open spec fn rows_in(self, part: int) -> int {
        self.chunks.partitions[part].rows.len() as int
    }

    /// How many edges the collection holds: the rows of the partitions of
    /// its range.
    pub open spec fn size(self) -> int {
        rows_before(self.chunks.partitions, self.end) - rows_before(
            self.chunks.partitions,
            self.begin,
        )
    }

    /// Whether an edge stands at the place.
    pub open spec fn valid(self, pos: EdgePos) -> bool {
        0 <= pos.part < self.end && 0 <= pos.row < self.rows_in(pos.part)
    }

    /// The place of the end.
    pub open spec fn end_pos(self) -> EdgePos {
        EdgePos { part: self.end, row: 0 }
    }

    /// The endpoint of the edge at a place.
    pub open spec fn endpoint(self, part: int, row: int, by_source: bool) -> int {
        if by_source {
            self.chunks.partitions[part].rows[row].0 as int
        } else {
            self.chunks.partitions[part].rows[row].1 as int
        }
    }

    /// The first place at or after the row `row` of the partition `part` at
    /// which an edge stands; the end if there is none.
    pub open spec fn seek(self, part: int, row: int) -> EdgePos
        decreases self.end - part,
    {
        if part >= self.end {
            self.end_pos()
        } else if row < self.rows_in(part) {
            EdgePos { part, row }
        } else {
            self.seek(part + 1, 0)
        }
    }

    /// The place of the first edge.
    pub open spec fn first(self) -> EdgePos {
        self.seek(self.begin, 0)
    }

    /// The place of the edge after a place.
    pub open spec fn step(self, pos: EdgePos) -> EdgePos {
        if pos.part >= self.end {
            self.end_pos()
        } else if pos.row < self.rows_in(pos.part) {
            self.seek(pos.part, pos.row + 1)
        } else {
            self.seek(pos.part + 1, 0)
        }
    }

    /// The first place at or after the row `row` of the partition `part` at
    /// which an edge with the endpoint `id` stands, found by going through
    /// the rows; the end if there is none.
    pub open spec fn scan(self, part: int, row: int, id: int, by_source: bool) -> EdgePos
        decreases self.end - part, self.rows_in(part) - row,
    {
        if part >= self.end {
            self.end_pos()
        } else if row >= self.rows_in(part) {
            self.scan(part + 1, 0, id, by_source)
        } else if self.endpoint(part, row, by_source) == id {
            EdgePos { part, row }
        } else {
            self.scan(part, row + 1, id, by_source)
        }
    }

    /// The place that the offset tables give for the first edge with the
    /// pivot endpoint `id` at or after a place; the end if they give none.
    ///
    /// The vertex `id` belongs to the partition `id / size`, and its edges
    /// stand in the rows from the entry `id % size` of the offset table up to
    /// the next entry. The place is the first of these rows, or the row of
    /// the given place where that lies among them. It is the end when the
    /// partition lies before the given place or outside the collection, when
    /// the table has no such entries, or when no such row is at or after the
    /// given place.
    pub open spec fn jump(self, part: int, row: int, id: int) -> EdgePos {
        let size = pivot_size(self.info, self.kind);
        let k = id / size;
        let i = id % size;
        if id < 0 || part >= self.end || k < part || k >= self.end {
            self.end_pos()
        } else {
            let offsets = self.chunks.partitions[k].offsets;
            if i + 1 >= offsets.len() {
                self.end_pos()
            } else {
                let from = if k == part && row > offsets[i] {
                    row
                } else {
                    offsets[i] as int
                };
                if from < offsets[i + 1] && from < self.rows_in(k) {
                    EdgePos { part: k, row: from }
                } else {
                    self.end_pos()
                }
            }
        }
    }

    /// The place of the first edge with the endpoint `id` at or after a
    /// place: by the offset tables where the kind is ordered by that
    /// endpoint, else by going through the rows.
    pub open spec fn locate(self, part: int, row: int, id: int, by_source: bool) -> EdgePos {
        if kind_matches(self.kind, by_source) {
            self.jump(part, row, id)
        } else {
            self.scan(part, row, id, by_source)
        }
    }

    /// Where `next_src` or `next_dst` leaves an iterator that stands at an
    /// edge. Where the kind is ordered by the endpoint, this is the next
    /// edge; else it is the next edge that has the same endpoint, or the end.
    pub open spec fn next_same(self, pos: EdgePos, by_source: bool) -> EdgePos {
        if kind_matches(self.kind, by_source) {
            self.step(pos)
        } else {
            let next = self.step(pos);
            self.scan(next.part, next.row, self.endpoint(pos.part, pos.row, by_source), by_source)
        }
    }

    /// The index of the chunk of a place among the adjacency chunks of all
    /// partitions, each partition starting a chunk of its own; at the end,
    /// the number of chunks before the end.
    pub open spec fn global_chunk(self, pos: EdgePos) -> int {
        if self.valid(pos) {
            chunks_before(self.chunks.partitions, self.info.chunk_size, pos.part) + pos.row
                / self.info.chunk_size
        } else {
            chunks_before(self.chunks.partitions, self.info.chunk_size, self.end)
        }
    }

    /// The row of a place in its chunk; `0` at the end.
    pub open spec fn offset_in_chunk(self, pos: EdgePos) -> int {
        if self.valid(pos) {
            pos.row % self.info.chunk_size
        } else {
            0
        }
    }

    /// The row of a place among the rows of all partitions.
    pub open spec fn global_row(self, pos: EdgePos) -> int {
        rows_before(self.chunks.partitions, pos.part) + pos.row
    }

    /// What an access to the property `name` of the edge at a place gives:
    /// `OutOfRangeError` where no edge stands; else the cell of the row among
    /// the rows of all partitions: see `stored_cell`.
    pub open spec fn cell(self, pos: EdgePos, name: Seq<char>) -> Result<
        Option<ValueView>,
        GraphError,
    > {
        if !self.valid(pos) {
            Err(GraphError::OutOfRangeError)
        } else {
            stored_cell(
                self.info.property_groups,
                self.info.chunk_size,
                0,
                self.chunks.groups,
                self.global_row(pos),
                name,
            )
        }
    }
}

/// Whether the place `(part, row)` lies before the place `pos`, partition by
/// partition and row by row.
pub open spec fn place_before(part: int, row: int, pos: EdgePos) -> bool {
    part < pos.part || (part == pos.part && row < pos.row)
}

/// What going through the rows finds: the first edge at or after the given
/// place with the endpoint `id`. The result is the end, or a place at or
/// after the given one at which an edge with the endpoint stands; and no edge
/// between the given place and the result has the endpoint.
pub proof fn lemma_scan(view: EdgesView, part: int, row: int, id: int, by_source: bool)
    requires
        0 <= part,
        0 <= row,
        view.end <= view.chunks.partitions.len(),
    ensures
        ({
            let found = view.scan(part, row, id, by_source);
            &&& found == view.end_pos() || (view.valid(found) && view.endpoint(
                found.part,
                found.row,
                by_source,
            ) == id && !place_before(found.part, found.row, EdgePos { part, row }))
            &&& forall|p: int, r: int|
                view.valid(EdgePos { part: p, row: r }) && !place_before(p, r, EdgePos { part, row })
                    && place_before(p, r, found) ==> #[trigger] view.endpoint(p, r, by_source)
                    != id
        }),
    decreases view.end - part, view.rows_in(part) - row,
{
    if part >= view.end {
    } else if row >= view.rows_in(part) {
        lemma_scan(view, part + 1, 0, id, by_source);
    } else if view.endpoint(part, row, by_source) == id {
    } else {
        lemma_scan(view, part, row + 1, id, by_source);
    }
}

/// The range of partitions to which a collection over `count` partitions is
/// restricted by the vertex chunks `start..end`.
pub open spec fn clamp_range(start: int, end: int, count: int) -> (int, int) {
    let e = if end < count {
        end
    } else {
        count
    };
    let b = if start < e {
        start
    } else {
        e
    };
    (b, e)
}

/// A collection that is restricted to a range of vertex chunks holds no more
/// edges than the collection over all vertex chunks.
pub proof fn lemma_restricted_size(
    info: EdgeInfoView,
    kind: AdjListType,
    chunks: EdgeChunksView,
    start: int,
    end: int,
)
    requires
        0 <= start <= end,
    ensures
        ({
            let count = chunks.partitions.len() as int;
            let (b, e) = clamp_range(start, end, count);
            let restricted = EdgesView { info, kind, chunks, begin: b, end: e };
            let whole = EdgesView { info, kind, chunks, begin: 0, end: count };
            0 <= restricted.size() <= whole.size()
        }),
{
    let count = chunks.partitions.len() as int;
    let (b, e) = clamp_range(start, end, count);
    lemma_rows_before_monotone(chunks.partitions, 0, b);
    lemma_rows_before_monotone(chunks.partitions, b, e);
    lemma_rows_before_monotone(chunks.partitions, e, count);
}


/// The edges of one type under one adjacency kind, as their chunks hold
/// them, restricted to a range of vertex chunks.
#[derive(Debug)]
pub struct Edges {
    info: EdgeInfo,
    kind: AdjListType,
    chunks: EdgeChunks,
    begin: usize,
    end: usize,
    starts: Vec<u64>,
    chunk_starts: Vec<u64>,
}

impl View for Edges {
    type V = EdgesView;

    closed spec fn view(&self) -> EdgesView {
        EdgesView {
            info: self.info@,
            kind: self.kind,
            chunks: self.chunks@,
            begin: self.begin as int,
            end: self.end as int,
        }
    }
}

/// The most rows that a collection can hold in all its partitions.
pub open spec fn max_rows() -> int {
    if usize::MAX < i64::MAX {
        usize::MAX as int
    } else {
        i64::MAX as int
    }
}

/// What opening a collection gives: `OutOfRangeError` when the range of
/// vertex chunks starts below `0` or ends before it starts, or when the
/// partitions hold more rows than `max_rows`; else the collection over the
/// partitions of the range.
pub open spec fn edges_open(
    info: EdgeInfoView,
    kind: AdjListType,
    range: Option<Range<i64>>,
    chunks: EdgeChunksView,
) -> Result<EdgesView, GraphError> {
    let start = if range is Some {
        range->Some_0.start as int
    } else {
        0
    };
    let end = if range is Some {
        range->Some_0.end as int
    } else {
        i64::MAX as int
    };
    let count = chunks.partitions.len() as int;
    if start < 0 || end < start || rows_before(chunks.partitions, count) > max_rows() {
        Err(GraphError::OutOfRangeError)
    } else {
        Ok(
            EdgesView {
                info,
                kind,
                chunks,
                begin: clamp_range(start, end, count).0,
                end: clamp_range(start, end, count).1,
            },
        )
    }
}

/// What `Edges::new` gives: `SchemaError` when the graph declares no such
/// edge type, or the type has no adjacency list of the kind; else what
/// opening the collection gives.
pub open spec fn edges_new(
    graph: crate::graph_info::graph::GraphInfoView,
    src_type: Seq<char>,
    edge_type: Seq<char>,
    dst_type: Seq<char>,
    kind: AdjListType,
    range: Option<Range<i64>>,
    chunks: EdgeChunksView,
) -> Result<EdgesView, GraphError> {
    let i = edge_index(graph.edge_infos, src_type, edge_type, dst_type, 0);
    if i >= graph.edge_infos.len() || !has_kind(graph.edge_infos[i].adjacent_lists, kind) {
        Err(GraphError::SchemaError)
    } else {
        edges_open(graph.edge_infos[i], kind, range, chunks)
    }
}

impl Edges {
    #[verifier::type_invariant]
    spec fn valid(&self) -> bool {
        let partitions = self.chunks@.partitions;
        &&& self.begin <= self.end <= partitions.len()
        &&& self.starts@.len() == partitions.len() + 1
        &&& self.chunk_starts@.len() == partitions.len() + 1
        &&& self.info@.chunk_size > 0
        &&& forall|k: int|
            0 <= k <= partitions.len() ==> (#[trigger] self.starts@[k]) == rows_before(
                partitions,
                k,
            )
        &&& forall|k: int|
            0 <= k <= partitions.len() ==> (#[trigger] self.chunk_starts@[k]) == chunks_before(
                partitions,
                self.info@.chunk_size,
                k,
            )
        &&& rows_before(partitions, partitions.len() as int) <= max_rows()
    }

    /// Opens the edges of the type that connects `src_type` to `dst_type`
    /// under the name `edge_type`, over the given chunks of the kind
    /// `adj_list_type`, restricted to the vertex chunks `vertex_chunks` of
    /// the pivot side, or to all where none are given: see `edges_new`.
    pub fn new(
        graph_info: &GraphInfo,
        src_type: &str,
        edge_type: &str,
        dst_type: &str,
        adj_list_type: AdjListType,
        vertex_chunks: Option<Range<i64>>,
        chunks: EdgeChunks,
    ) -> (r: Result<Self, GraphError>)
        ensures
            match r {
                Ok(edges) => edges_new(
                    graph_info@,
                    src_type@,
                    edge_type@,
                    dst_type@,
                    adj_list_type,
                    vertex_chunks,
                    chunks@,
                ) == Ok::<EdgesView, GraphError>(edges@),
                Err(e) => edges_new(
                    graph_info@,
                    src_type@,
                    edge_type@,
                    dst_type@,
                    adj_list_type,
                    vertex_chunks,
                    chunks@,
                ) == Err::<EdgesView, GraphError>(e),
            },
    {
        match graph_info.edge_info(src_type, edge_type, dst_type) {
            Some(info) => {
                if !info.has_adjacent_list_type(adj_list_type) {
                    return Err(GraphError::SchemaError);
                }
                Edges::open(&info, adj_list_type, vertex_chunks, chunks)
            },
            None => Err(GraphError::SchemaError),
        }
    }

    /// Opens the edges of a type over the given chunks of the kind
    /// `adj_list_type`: see `edges_open`. Nothing is read from the property
    /// chunks here.
    pub fn open(
        edge_info: &EdgeInfo,
        adj_list_type: AdjListType,
        vertex_chunks: Option<Range<i64>>,
        chunks: EdgeChunks,
    ) -> (r: Result<Self, GraphError>)
        ensures
            match r {
                Ok(edges) => edges_open(edge_info@, adj_list_type, vertex_chunks, chunks@) == Ok::<
                    EdgesView,
                    GraphError,
                >(edges@),
                Err(e) => edges_open(edge_info@, adj_list_type, vertex_chunks, chunks@) == Err::<
                    EdgesView,
                    GraphError,
                >(e),
            },
    {
        let (start, end): (i64, i64) = match vertex_chunks {
            Some(range) => (range.start, range.end),
            None => (0, i64::MAX),
        };
        if start < 0 || end < start {
            return Err(GraphError::OutOfRangeError);
        }
        let ghost partitions = chunks@.partitions;
        let size = edge_info.chunk_size() as u64;
        let limit: u64 = if usize::MAX as u64 <= i64::MAX as u64 {
            usize::MAX as u64
        } else {
            i64::MAX as u64
        };
        let count = chunks.partitions.len();
        let mut starts: Vec<u64> = Vec::new();
        let mut chunk_starts: Vec<u64> = Vec::new();
        let mut total: u64 = 0;
        let mut total_chunks: u64 = 0;
        starts.push(0);
        chunk_starts.push(0);
        let mut k: usize = 0;
        while k < count
            invariant
                0 <= k <= count,
                count == chunks.partitions@.len(),
                partitions == chunks@.partitions,
                size == edge_info@.chunk_size,
                size > 0,
                limit == max_rows(),
                starts@.len() == k + 1,
                chunk_starts@.len() == k + 1,
                total == rows_before(partitions, k as int),
                total_chunks == chunks_before(partitions, size as int, k as int),
                total <= limit,
                forall|j: int| 0 <= j <= k ==> (#[trigger] starts@[j]) == rows_before(partitions, j),
                forall|j: int|
                    0 <= j <= k ==> (#[trigger] chunk_starts@[j]) == chunks_before(
                        partitions,
                        size as int,
                        j,
                    ),
            decreases count - k,
        {
            let n = chunks.partitions[k].rows.len() as u64;
            assert(n == partitions[k as int].rows.len());
            if n > limit - total {
                proof {
                    lemma_rows_before_monotone(partitions, k + 1, count as int);
                }
                return Err(GraphError::OutOfRangeError);
            }
            proof {
                lemma_chunks_before_bound(partitions, size as int, k + 1);
            }
            let full = n / size;
            let extra: u64 = if n % size == 0 {
                0
            } else {
                1
            };
            total = total + n;
            total_chunks = total_chunks + full + extra;
            starts.push(total);
            chunk_starts.push(total_chunks);
            k += 1;
        }
        let e: usize = if (end as u64) < count as u64 {
            end as usize
        } else {
            count
        };
        let b: usize = if (start as u64) < e as u64 {
            start as usize
        } else {
            e
        };
        Ok(
            Edges {
                info: edge_info.clone(),
                kind: adj_list_type,
                chunks,
                begin: b,
                end: e,
                starts,
                chunk_starts,
            },
        )
    }

    /// How many edges the collection holds.
    pub fn len(&self) -> (r: usize)
        ensures
            r == self@.size(),
    {
        proof {
            use_type_invariant(self);
            lemma_rows_before_monotone(self@.chunks.partitions, self.begin as int, self.end as int);
            lemma_rows_before_monotone(
                self@.chunks.partitions,
                self.end as int,
                self@.chunks.partitions.len() as int,
            );
        }
        (self.starts[self.end] - self.starts[self.begin]) as usize
    }

    /// Whether the collection holds no edge.
    pub fn is_empty(&self) -> (r: bool)
        ensures
            r == (self@.size() == 0),
    {
        self.len() == 0
    }

    /// The description of the type.
    pub fn edge_info(&self) -> (r: &EdgeInfo)
        ensures
            r@ == self@.info,
    {
        &self.info
    }

    /// The adjacency kind of the chunks.
    pub fn adj_list_type(&self) -> (r: AdjListType)
        ensures
            r == self@.kind,
    {
        self.kind
    }

    fn is_valid(&self, part: usize, row: usize) -> (r: bool)
        ensures
            r == self@.valid(EdgePos { part: part as int, row: row as int }),
            r ==> part < self.chunks.partitions@.len() && row
                < self.chunks.partitions@[part as int].rows@.len(),
    {
        proof {
            use_type_invariant(self);
        }
        part < self.end && row < self.chunks.partitions[part].rows.len()
    }

    fn endpoint(&self, part: usize, row: usize, by_source: bool) -> (r: i64)
        requires
            part < self.chunks.partitions@.len(),
            row < self.chunks.partitions@[part as int].rows@.len(),
        ensures
            r == self@.endpoint(part as int, row as int, by_source),
    {
        let pair = self.chunks.partitions[part].rows[row];
        if by_source {
            pair.0
        } else {
            pair.1
        }
    }

    fn seek(&self, part: usize, row: usize) -> (r: (usize, usize))
        ensures
            (EdgePos { part: r.0 as int, row: r.1 as int }) == self@.seek(part as int, row as int),
    {
        proof {
            use_type_invariant(self);
        }
        let mut p = part;
        let mut r = row;
        while p < self.end && r >= self.chunks.partitions[p].rows.len()
            invariant
                self.end <= self.chunks.partitions@.len(),
                self@.seek(part as int, row as int) == self@.seek(p as int, r as int),
            decreases self.end - p,
        {
            p += 1;
            r = 0;
        }
        if p >= self.end {
            (self.end, 0)
        } else {
            (p, r)
        }
    }

    fn step(&self, part: usize, row: usize) -> (r: (usize, usize))
        ensures
            (EdgePos { part: r.0 as int, row: r.1 as int }) == self@.step(
                EdgePos { part: part as int, row: row as int },
            ),
    {
        proof {
            use_type_invariant(self);
        }
        if part >= self.end {
            (self.end, 0)
        } else if row < self.chunks.partitions[part].rows.len() {
            self.seek(part, row + 1)
        } else {
            self.seek(part + 1, 0)
        }
    }

    fn scan(&self, part: usize, row: usize, id: i64, by_source: bool) -> (r: (usize, usize))
        ensures
            (EdgePos { part: r.0 as int, row: r.1 as int }) == self@.scan(
                part as int,
                row as int,
                id as int,
                by_source,
            ),
    {
        proof {
            use_type_invariant(self);
        }
        let mut p = part;
        let mut r = row;
        while p < self.end
            invariant
                self.end <= self.chunks.partitions@.len(),
                self@.scan(part as int, row as int, id as int, by_source) == self@.scan(
                    p as int,
                    r as int,
                    id as int,
                    by_source,
                ),
            decreases self.end - p, self.chunks.partitions@[p as int].rows@.len() - r,
        {
            if r >= self.chunks.partitions[p].rows.len() {
                p += 1;
                r = 0;
            } else if self.endpoint(p, r, by_source) == id {
                return (p, r);
            } else {
                r += 1;
            }
        }
        (self.end, 0)
    }

    fn pivot_size(&self) -> (size: u64)
        ensures
            size == pivot_size(self@.info, self@.kind),
            size > 0,
    {
        if self.kind.is_by_source() {
            self.info.src_chunk_size() as u64
        } else {
            self.info.dst_chunk_size() as u64
        }
    }

    fn jump(&self, part: usize, row: usize, id: i64) -> (r: (usize, usize))
        ensures
            (EdgePos { part: r.0 as int, row: r.1 as int }) == self@.jump(
                part as int,
                row as int,
                id as int,
            ),
    {
        proof {
            use_type_invariant(self);
        }
        let size = self.pivot_size();
        if id < 0 || part >= self.end {
            return (self.end, 0);
        }
        let k: u64 = id as u64 / size;
        let i: u64 = id as u64 % size;
        if k < part as u64 || k >= self.end as u64 {
            return (self.end, 0);
        }
        let target = &self.chunks.partitions[k as usize];
        if i >= target.offsets.len() as u64 || i + 1 >= target.offsets.len() as u64 {
            return (self.end, 0);
        }
        let first: u64 = target.offsets[i as usize];
        let last: u64 = target.offsets[(i + 1) as usize];
        let from: u64 = if k == part as u64 && row as u64 > first {
            row as u64
        } else {
            first
        };
        if from < last && from < target.rows.len() as u64 {
            (k as usize, from as usize)
        } else {
            (self.end, 0)
        }
    }

    fn locate(&self, part: usize, row: usize, id: i64, by_source: bool) -> (r: (usize, usize))
        ensures
            (EdgePos { part: r.0 as int, row: r.1 as int }) == self@.locate(
                part as int,
                row as int,
                id as int,
                by_source,
            ),
    {
        if self.kind.is_ordered() && self.kind.is_by_source() == by_source {
            self.jump(part, row, id)
        } else {
            self.scan(part, row, id, by_source)
        }
    }

    /// An iterator at the first edge; at the end where there is none.
    pub fn begin(&self) -> (it: EdgeIter<'_>)
        ensures
            it.pos_spec() == self@.first(),
            it.edges_spec() == self,
    {
        let (part, row) = self.seek(self.begin, 0);
        EdgeIter { edges: self, part, row }
    }

    /// An iterator at the end.
    pub fn end(&self) -> (it: EdgeIter<'_>)
        ensures
            it.pos_spec() == self@.end_pos(),
            it.edges_spec() == self,
    {
        EdgeIter { edges: self, part: self.end, row: 0 }
    }

    /// An iterator at the first edge with the source `id` at or after the
    /// place of `from`; at the end where there is none.
    pub fn find_src(&self, id: i64, from: &EdgeIter) -> (it: EdgeIter<'_>)
        ensures
            it.pos_spec() == self@.locate(from.pos_spec().part, from.pos_spec().row, id as int, true),
            it.edges_spec() == self,
    {
        let (part, row) = self.locate(from.part, from.row, id, true);
        EdgeIter { edges: self, part, row }
    }

    /// An iterator at the first edge with the destination `id` at or after
    /// the place of `from`; at the end where there is none.
    pub fn find_dst(&self, id: i64, from: &EdgeIter) -> (it: EdgeIter<'_>)
        ensures
            it.pos_spec() == self@.locate(
                from.pos_spec().part,
                from.pos_spec().row,
                id as int,
                false,
            ),
            it.edges_spec() == self,
    {
        let (part, row) = self.locate(from.part, from.row, id, false);
        EdgeIter { edges: self, part, row }
    }

    /// The cell of the property `name` of the edge at a place: see
    /// `EdgesView::cell`.
    fn cell(&self, part: usize, row: usize, name: &str) -> (r: Result<Option<&Value>, GraphError>)
        ensures
            cell_view(r) == self@.cell(EdgePos { part: part as int, row: row as int }, name@),
    {
        proof {
            use_type_invariant(self);
        }
        if !self.is_valid(part, row) {
            return Err(GraphError::OutOfRangeError);
        }
        proof {
            lemma_rows_before_monotone(
                self@.chunks.partitions,
                part + 1,
                self@.chunks.partitions.len() as int,
            );
        }
        let global: u64 = self.starts[part] + row as u64;
        read_stored_cell(
            self.info.property_groups_ref(),
            self.info.chunk_size() as u64,
            0,
            &self.chunks.groups,
            global as i64,
            name,
        )
    }
}

/// A place among the edges of a collection.
#[derive(Debug)]
pub struct EdgeIter<'a> {
    edges: &'a Edges,
    part: usize,
    row: usize,
}

impl<'a> PartialEq for EdgeIter<'a> {
    /// Two iterators are equal when they stand at the same place.
    fn eq(&self, other: &Self) -> (r: bool) {
        self.part == other.part && self.row == other.row
    }
}

impl<'a> PartialEqSpecImpl for EdgeIter<'a> {
    open spec fn obeys_eq_spec() -> bool {
        true
    }

    open spec fn eq_spec(&self, other: &Self) -> bool {
        self.pos_spec() == other.pos_spec()
    }
}

impl<'a> Eq for EdgeIter<'a> {

}

impl<'a> EdgeIter<'a> {
    /// The place at which the iterator stands.
    pub closed spec fn pos_spec(&self) -> EdgePos {
        EdgePos { part: self.part as int, row: self.row as int }
    }

    /// The collection over which the iterator runs.
    pub closed spec fn edges_spec(&self) -> &Edges {
        self.edges
    }

    /// The source of the edge at which the iterator stands;
    /// `OutOfRangeError` where it stands at no edge.
    pub fn source(&self) -> (r: Result<i64, GraphError>)
        ensures
            r == if self.edges_spec()@.valid(self.pos_spec()) {
                Ok::<i64, GraphError>(
                    self.edges_spec()@.endpoint(self.pos_spec().part, self.pos_spec().row, true) as i64,
                )
            } else {
                Err::<i64, GraphError>(GraphError::OutOfRangeError)
            },
    {
        if self.edges.is_valid(self.part, self.row) {
            Ok(self.edges.endpoint(self.part, self.row, true))
        } else {
            Err(GraphError::OutOfRangeError)
        }
    }

    /// The destination of the edge at which the iterator stands;
    /// `OutOfRangeError` where it stands at no edge.
    pub fn destination(&self) -> (r: Result<i64, GraphError>)
        ensures
            r == if self.edges_spec()@.valid(self.pos_spec()) {
                Ok::<i64, GraphError>(
                    self.edges_spec()@.endpoint(self.pos_spec().part, self.pos_spec().row, false) as i64,
                )
            } else {
                Err::<i64, GraphError>(GraphError::OutOfRangeError)
            },
    {
        if self.edges.is_valid(self.part, self.row) {
            Ok(self.edges.endpoint(self.part, self.row, false))
        } else {
            Err(GraphError::OutOfRangeError)
        }
    }

    /// Moves on to the next edge, through the partitions; to the end after
    /// the last one.
    pub fn next(&mut self)
        ensures
            final(self).edges_spec() == old(self).edges_spec(),
            final(self).pos_spec() == old(self).edges_spec()@.step(old(self).pos_spec()),
    {
        let (part, row) = self.edges.step(self.part, self.row);
        self.part = part;
        self.row = row;
    }

    /// Moves back to the first edge.
    pub fn to_begin(&mut self)
        ensures
            final(self).edges_spec() == old(self).edges_spec(),
            final(self).pos_spec() == old(self).edges_spec()@.first(),
    {
        let (part, row) = self.edges.seek(self.edges.begin, 0);
        self.part = part;
        self.row = row;
    }

    fn next_same(&mut self, by_source: bool) -> (r: bool)
        ensures
            final(self).edges_spec() == old(self).edges_spec(),
            ({
                let edges = old(self).edges_spec()@;
                let pos = old(self).pos_spec();
                if edges.valid(pos) {
                    let next = edges.next_same(pos, by_source);
                    final(self).pos_spec() == next && r == (edges.valid(next) && edges.endpoint(
                        next.part,
                        next.row,
                        by_source,
                    ) == edges.endpoint(pos.part, pos.row, by_source))
                } else {
                    final(self).pos_spec() == pos && !r
                }
            }),
    {
        if !self.edges.is_valid(self.part, self.row) {
            return false;
        }
        let id = self.edges.endpoint(self.part, self.row, by_source);
        let (p, r) = self.edges.step(self.part, self.row);
        let (part, row) = if self.edges.kind.is_ordered() && self.edges.kind.is_by_source()
            == by_source {
            (p, r)
        } else {
            self.edges.scan(p, r, id, by_source)
        };
        self.part = part;
        self.row = row;
        self.edges.is_valid(part, row) && self.edges.endpoint(part, row, by_source) == id
    }

    /// Moves on among the edges of the source at which the iterator stands.
    ///
    /// Where the kind is ordered by source, the iterator moves to the next
    /// edge, and the result says whether that edge has the same source.
    /// Else it moves to the next edge with the same source, or to the end,
    /// and the result says whether there was one. An iterator that stands
    /// at no edge stays, and the result is `false`.
    pub fn next_src(&mut self) -> (r: bool)
        ensures
            final(self).edges_spec() == old(self).edges_spec(),
            ({
                let edges = old(self).edges_spec()@;
                let pos = old(self).pos_spec();
                if edges.valid(pos) {
                    let next = edges.next_same(pos, true);
                    final(self).pos_spec() == next && r == (edges.valid(next) && edges.endpoint(
                        next.part,
                        next.row,
                        true,
                    ) == edges.endpoint(pos.part, pos.row, true))
                } else {
                    final(self).pos_spec() == pos && !r
                }
            }),
    {
        self.next_same(true)
    }

    /// Moves on among the edges of the destination at which the iterator
    /// stands: as `next_src`, with the destination in place of the source.
    pub fn next_dst(&mut self) -> (r: bool)
        ensures
            final(self).edges_spec() == old(self).edges_spec(),
            ({
                let edges = old(self).edges_spec()@;
                let pos = old(self).pos_spec();
                if edges.valid(pos) {
                    let next = edges.next_same(pos, false);
                    final(self).pos_spec() == next && r == (edges.valid(next) && edges.endpoint(
                        next.part,
                        next.row,
                        false,
                    ) == edges.endpoint(pos.part, pos.row, false))
                } else {
                    final(self).pos_spec() == pos && !r
                }
            }),
    {
        self.next_same(false)
    }

    /// Moves to the first edge with the source `id` at or after the place of
    /// the iterator, or to the end; the result says whether there is such an
    /// edge.
    pub fn next_src_with_id(&mut self, id: i64) -> (r: bool)
        ensures
            final(self).edges_spec() == old(self).edges_spec(),
            final(self).pos_spec() == old(self).edges_spec()@.locate(
                old(self).pos_spec().part,
                old(self).pos_spec().row,
                id as int,
                true,
            ),
            r == old(self).edges_spec()@.valid(final(self).pos_spec()),
    {
        let (part, row) = self.edges.locate(self.part, self.row, id, true);
        self.part = part;
        self.row = row;
        self.edges.is_valid(part, row)
    }

    /// Moves to the first edge with the destination `id` at or after the
    /// place of the iterator, or to the end; the result says whether there is
    /// such an edge.
    pub fn next_dst_with_id(&mut self, id: i64) -> (r: bool)
        ensures
            final(self).edges_spec() == old(self).edges_spec(),
            final(self).pos_spec() == old(self).edges_spec()@.locate(
                old(self).pos_spec().part,
                old(self).pos_spec().row,
                id as int,
                false,
            ),
            r == old(self).edges_spec()@.valid(final(self).pos_spec()),
    {
        let (part, row) = self.edges.locate(self.part, self.row, id, false);
        self.part = part;
        self.row = row;
        self.edges.is_valid(part, row)
    }

    /// Moves to the first edge with the source `id` at or after the place of
    /// `from`, or to the end; the result says whether there is such an edge.
    pub fn first_src(&mut self, from: &EdgeIter, id: i64) -> (r: bool)
        ensures
            final(self).edges_spec() == old(self).edges_spec(),
            final(self).pos_spec() == old(self).edges_spec()@.locate(
                from.pos_spec().part,
                from.pos_spec().row,
                id as int,
                true,
            ),
            r == old(self).edges_spec()@.valid(final(self).pos_spec()),
    {
        let (part, row) = self.edges.locate(from.part, from.row, id, true);
        self.part = part;
        self.row = row;
        self.edges.is_valid(part, row)
    }

    /// Moves to the first edge with the destination `id` at or after the
    /// place of `from`, or to the end; the result says whether there is such
    /// an edge.
    pub fn first_dst(&mut self, from: &EdgeIter, id: i64) -> (r: bool)
        ensures
            final(self).edges_spec() == old(self).edges_spec(),
            final(self).pos_spec() == old(self).edges_spec()@.locate(
                from.pos_spec().part,
                from.pos_spec().row,
                id as int,
                false,
            ),
            r == old(self).edges_spec()@.valid(final(self).pos_spec()),
    {
        let (part, row) = self.edges.locate(from.part, from.row, id, false);
        self.part = part;
        self.row = row;
        self.edges.is_valid(part, row)
    }

    /// The index of the chunk of the iterator's place among the adjacency
    /// chunks of all partitions: see `EdgesView::global_chunk`.
    pub fn global_chunk_index(&self) -> (r: i64)
        ensures
            r == self.edges_spec()@.global_chunk(self.pos_spec()),
    {
        proof {
            use_type_invariant(self.edges);
            let partitions = self.edges@.chunks.partitions;
            let size = self.edges@.info.chunk_size;
            lemma_chunks_before_bound(partitions, size, self.edges.end as int);
            lemma_rows_before_monotone(partitions, self.edges.end as int, partitions.len() as int);
        }
        let size = self.edges.info.chunk_size() as u64;
        if self.edges.is_valid(self.part, self.row) {
            proof {
                let partitions = self.edges@.chunks.partitions;
                let n = partitions[self.part as int].rows.len() as int;
                lemma_chunks_before_bound(partitions, size as int, self.part as int);
                lemma_rows_before_monotone(partitions, self.part + 1, partitions.len() as int);
                vstd::arithmetic::div_mod::lemma_div_is_ordered(self.row as int, n, size as int);
                vstd::arithmetic::div_mod::lemma_fundamental_div_mod(n, size as int);
                vstd::arithmetic::div_mod::lemma_mod_bound(n, size as int);
                vstd::arithmetic::div_mod::lemma_div_pos_is_pos(n, size as int);
                assert(size * (n / (size as int)) >= n / (size as int)) by (nonlinear_arith)
                    requires
                        size > 0,
                        n / (size as int) >= 0,
                ;
            }
            (self.edges.chunk_starts[self.part] + self.row as u64 / size) as i64
        } else {
            self.edges.chunk_starts[self.edges.end] as i64
        }
    }

    /// The row of the iterator's place in its chunk; `0` at the end.
    pub fn cur_offset(&self) -> (r: i64)
        ensures
            r == self.edges_spec()@.offset_in_chunk(self.pos_spec()),
    {
        proof {
            use_type_invariant(self.edges);
        }
        let size = self.edges.info.chunk_size() as u64;
        if self.edges.is_valid(self.part, self.row) {
            (self.row as u64 % size) as i64
        } else {
            0
        }
    }

    /// Whether the iterator stands at no edge.
    pub fn is_end(&self) -> (r: bool)
        ensures
            r == !self.edges_spec()@.valid(self.pos_spec()),
    {
        !self.edges.is_valid(self.part, self.row)
    }

    /// The cell of the property `name` of the edge at which the iterator
    /// stands: see `EdgesView::cell`.
    pub fn cell(&self, name: &str) -> (r: Result<Option<&'a Value>, GraphError>)
        ensures
            cell_view(r) == self.edges_spec()@.cell(self.pos_spec(), name@),
    {
        self.edges.cell(self.part, self.row, name)
    }

    /// The property `name` of the edge at which the iterator stands, read as
    /// the type `T`: see `typed_read`.
    pub fn property<T>(&self, name: &str) -> (r: Result<T, GraphError>) where
        (): SupportedPropertyType<T>,

        ensures
            typed_read::<T>(
                declared_type(self.edges_spec()@.info.property_groups, name@),
                self.edges_spec()@.cell(self.pos_spec(), name@),
                r,
            ),
    {
        read_cell::<T>(
            find_declared_type(self.edges.info.property_groups_ref(), name),
            self.edges.cell(self.part, self.row, name),
        )
    }

    /// The edge at which the iterator stands; `OutOfRangeError` where it
    /// stands at no edge.
    pub fn edge(&self) -> (r: Result<Edge<'a>, GraphError>)
        ensures
            self.edges_spec()@.valid(self.pos_spec()) ==> r is Ok && r->Ok_0.pos_spec()
                == self.pos_spec() && r->Ok_0.edges_spec() == self.edges_spec(),
            !self.edges_spec()@.valid(self.pos_spec()) ==> r == Err::<Edge<'a>, GraphError>(
                GraphError::OutOfRangeError,
            ),
    {
        if !self.edges.is_valid(self.part, self.row) {
            return Err(GraphError::OutOfRangeError);
        }
        Ok(
            Edge {
                edges: self.edges,
                part: self.part,
                row: self.row,
                src: self.edges.endpoint(self.part, self.row, true),
                dst: self.edges.endpoint(self.part, self.row, false),
            },
        )
    }
}

/// One edge of a collection.
#[derive(Debug)]
pub struct Edge<'a> {
    edges: &'a Edges,
    part: usize,
    row: usize,
    src: i64,
    dst: i64,
}

impl<'a> Edge<'a> {
    #[verifier::type_invariant]
    spec fn valid(&self) -> bool {
        &&& self.edges@.valid(self.pos_spec())
        &&& self.src == self.edges@.endpoint(self.part as int, self.row as int, true)
        &&& self.dst == self.edges@.endpoint(self.part as int, self.row as int, false)
    }

    /// The place of the edge.
    pub closed spec fn pos_spec(&self) -> EdgePos {
        EdgePos { part: self.part as int, row: self.row as int }
    }

    /// The collection to which the edge belongs.
    pub closed spec fn edges_spec(&self) -> &Edges {
        self.edges
    }

    /// The id of the source vertex.
    pub fn src(&self) -> (r: i64)
        ensures
            r == self.edges_spec()@.endpoint(self.pos_spec().part, self.pos_spec().row, true),
            self.edges_spec()@.valid(self.pos_spec()),
    {
        proof {
            use_type_invariant(self);
        }
        self.src
    }

    /// The id of the destination vertex.
    pub fn dst(&self) -> (r: i64)
        ensures
            r == self.edges_spec()@.endpoint(self.pos_spec().part, self.pos_spec().row, false),
            self.edges_spec()@.valid(self.pos_spec()),
    {
        proof {
            use_type_invariant(self);
        }
        self.dst
    }

    /// Whether the edge has a value for the property: the access succeeds
    /// and the cell is not empty.
    pub fn is_valid(&self, property: &str) -> (r: bool)
        ensures
            r == (self.edges_spec()@.cell(self.pos_spec(), property@) matches Ok(Some(_))),
    {
        match self.edges.cell(self.part, self.row, property) {
            Ok(Some(_)) => true,
            _ => false,
        }
    }

    /// The property `name` of the edge, read as the type `T`: see
    /// `typed_read`.
    pub fn property<T>(&self, name: &str) -> (r: Result<T, GraphError>) where
        (): SupportedPropertyType<T>,

        ensures
            typed_read::<T>(
                declared_type(self.edges_spec()@.info.property_groups, name@),
                self.edges_spec()@.cell(self.pos_spec(), name@),
                r,
            ),
    {
        read_cell::<T>(
            find_declared_type(self.edges.info.property_groups_ref(), name),
            self.edges.cell(self.part, self.row, name),
        )
    }
}

} // verus!
