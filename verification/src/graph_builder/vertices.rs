//! The builder that buffers the vertices of one type and cuts them into
//! chunks.

use crate::chunk::{
    all_chunks, build_all_chunks, check_rows, rows_fail, ChunkView, Record, RecordView,
    VertexChunks, VertexChunksView,
};
use crate::error::GraphError;
use crate::graph_builder::record::VertexBuilder;
use crate::graph_info::vertex_info::{VertexInfo, VertexInfoView};
use vstd::prelude::*;
use vstd::string::*;

verus! {

/// Buffers vertices of one type. The vertex added as number `k` gets the id
/// `start_idx + k`.
#[derive(Debug)]
pub struct VerticesBuilder {
    vertex_info: VertexInfo,
    prefix: String,
    start_idx: u64,
    records: Vec<VertexBuilder>,
}

/// What a vertices builder is, as a mathematical value.
pub struct VerticesBuilderView {
    pub info: VertexInfoView,
    pub prefix: Seq<char>,
    pub start_idx: int,
    pub records: Seq<RecordView>,
}

impl VerticesBuilderView {
    /// The id that the next vertex gets.
    pub open spec fn next_id(self) -> int {
        self.start_idx + self.records.len()
    }
}

impl View for VerticesBuilder {
    type V = VerticesBuilderView;

    closed spec fn view(&self) -> VerticesBuilderView {
        VerticesBuilderView {
            info: self.vertex_info@,
            prefix: self.prefix@,
            start_idx: self.start_idx as int,
            records: self.records.deep_view(),
        }
    }
}

/// The chunks that `records` make for the vertex type `info` when the first
/// record has the id `start_idx`.
pub open spec fn vertex_chunks(
    info: VertexInfoView,
    records: Seq<RecordView>,
    start_idx: int,
) -> VertexChunksView {
    VertexChunksView {
        count: records.len(),
        first_chunk: (start_idx / info.chunk_size) as nat,
        groups: all_chunks(records, info.property_groups, info.chunk_size),
        labels: Seq::empty(),
    }
}

/// What `dump` gives: `MissingPropertyError` when a record has no value for
/// a property that is not nullable; else `TypeMismatchError` when a record
/// has a value that is not of the declared type; else the chunks.
pub open spec fn vertices_dump(info: VertexInfoView, records: Seq<RecordView>, start_idx: int) -> Result<
    VertexChunksView,
    GraphError,
> {
    if rows_fail(records, info.property_groups, false) {
        Err(GraphError::MissingPropertyError)
    } else if rows_fail(records, info.property_groups, true) {
        Err(GraphError::TypeMismatchError)
    } else {
        Ok(vertex_chunks(info, records, start_idx))
    }
}

impl VerticesBuilder {
    /// A builder without vertices for the type `vertex_info`, whose first
    /// vertex will have the id `start_idx`. Fails with `OutOfRangeError`
    /// when `start_idx` is negative.
    pub fn new(vertex_info: &VertexInfo, path_prefix: &str, start_idx: i64) -> (r: Result<
        Self,
        GraphError,
    >)
        ensures
            start_idx >= 0 ==> r is Ok && r->Ok_0@ == (VerticesBuilderView {
                info: vertex_info@,
                prefix: path_prefix@,
                start_idx: start_idx as int,
                records: Seq::<RecordView>::empty(),
            }),
            start_idx < 0 ==> r == Err::<Self, GraphError>(GraphError::OutOfRangeError),
    {
        if start_idx < 0 {
            return Err(GraphError::OutOfRangeError);
        }
        let b = VerticesBuilder {
            vertex_info: vertex_info.clone(),
            prefix: path_prefix.to_owned(),
            start_idx: start_idx as u64,
            records: Vec::new(),
        };
        assert(b@.records =~= Seq::<RecordView>::empty());
        Ok(b)
    }

    /// Buffers a vertex under the next id, `start_idx` plus the number of
    /// vertices buffered so far. Fails with `OutOfRangeError`, and buffers
    /// nothing, when that id is above `i64::MAX`.
    pub fn add_vertex(&mut self, vertex: VertexBuilder) -> (r: Result<(), GraphError>)
        ensures
            old(self)@.next_id() <= i64::MAX ==> r is Ok && final(self)@ == (VerticesBuilderView {
                records: old(self)@.records.push(vertex@),
                ..old(self)@
            }),
            old(self)@.next_id() > i64::MAX ==> r == Err::<(), GraphError>(
                GraphError::OutOfRangeError,
            ) && final(self)@ == old(self)@,
    {
        let limit: u64 = i64::MAX as u64;
        if self.start_idx > limit || self.records.len() as u64 > limit - self.start_idx {
            return Err(GraphError::OutOfRangeError);
        }
        self.records.push(vertex);
        assert(self@.records =~= old(self)@.records.push(vertex@));
        Ok(())
    }

    /// The id that the next vertex gets; `OutOfRangeError` when that is
    /// above `i64::MAX`.
    pub fn next_id(&self) -> (r: Result<i64, GraphError>)
        ensures
            self@.next_id() <= i64::MAX ==> r == Ok::<i64, GraphError>(self@.next_id() as i64),
            self@.next_id() > i64::MAX ==> r == Err::<i64, GraphError>(
                GraphError::OutOfRangeError,
            ),
    {
        let limit: u64 = i64::MAX as u64;
        if self.start_idx > limit || self.records.len() as u64 > limit - self.start_idx {
            return Err(GraphError::OutOfRangeError);
        }
        Ok((self.start_idx + self.records.len() as u64) as i64)
    }

    /// The root under which the chunk files are to be written.
    pub fn prefix(&self) -> (r: &str)
        ensures
            r@ == self@.prefix,
    {
        self.prefix.as_str()
    }

    /// The vertex type that is built.
    pub fn vertex_info(&self) -> (r: &VertexInfo)
        ensures
            r@ == self@.info,
    {
        &self.vertex_info
    }

    /// Cuts the buffered vertices into chunks: for each property group one
    /// chunk per `chunk_size` vertices, with one column per property of the
    /// group. Fails with `MissingPropertyError` when a vertex has no value
    /// for a property that is not nullable; else with `TypeMismatchError`
    /// when a vertex has a value that is not of the declared type.
    pub fn dump(&self) -> (r: Result<VertexChunks, GraphError>)
        ensures
            match r {
                Ok(chunks) => vertices_dump(self@.info, self@.records, self@.start_idx) == Ok::<
                    VertexChunksView,
                    GraphError,
                >(chunks@),
                Err(e) => vertices_dump(self@.info, self@.records, self@.start_idx) == Err::<
                    VertexChunksView,
                    GraphError,
                >(e),
            },
    {
        let ghost rs = self@.records;
        let mut rows: Vec<&Record> = Vec::new();
        let mut i: usize = 0;
        while i < self.records.len()
            invariant
                0 <= i <= self.records@.len(),
                rs == self.records.deep_view(),
                rows@.len() == i,
                forall|k: int| 0 <= k < i ==> (#[trigger] rows@[k])@ == rs[k],
            decreases self.records@.len() - i,
        {
            rows.push(self.records[i].record());
            i += 1;
        }
        assert(rows.deep_view() =~= rs);
        let groups = self.vertex_info.property_groups_ref();
        if check_rows(&rows, groups, false) {
            return Err(GraphError::MissingPropertyError);
        }
        if check_rows(&rows, groups, true) {
            return Err(GraphError::TypeMismatchError);
        }
        let size = self.vertex_info.chunk_size() as u64;
        let labels: Vec<crate::chunk::Chunk> = Vec::new();
        assert(labels.deep_view() =~= Seq::<ChunkView>::empty());
        Ok(
            VertexChunks {
                count: rows.len(),
                first_chunk: self.start_idx / size,
                groups: build_all_chunks(&rows, groups, size),
                labels,
            },
        )
    }
}

} // verus!
