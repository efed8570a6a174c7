//! Reading the vertices of one type: a vertex id names its chunk and its row
//! in the chunk, so that a vertex is found without a search.

use crate::chunk::{
    cell_of, cell_view, chunk_count, chunk_present, chunk_rows, has_chunk, lemma_chunk_bounds,
    lemma_chunk_count_is_ceiling,
    lemma_stored_cell, lemma_stored_cell_in_chunk, lemma_supplied, read_stored_cell, stored_cell,
    supplied, supply_chunk, Chunk, ChunkView, RecordView, VertexChunks, VertexChunksView,
};
use crate::error::GraphError;
use crate::graph_builder::vertices::vertex_chunks;
use crate::graph_info::graph::{has_vertex_type, vertex_index, GraphInfo};
use crate::graph_info::property::{find_group, group_index, PropertyGroupView};
use crate::graph_info::vertex_info::{VertexInfo, VertexInfoView};
use crate::graph_reader::labels::{
    first_greater, label_cell, labelled_upto, labels_upto, read_label, read_labels, search_greater,
    select_labelled, Selection,
};
use crate::graph_reader::property_type::{
    declared_type, find_declared_type, read_cell, typed_read, SupportedPropertyType,
};
use crate::value::{Value, ValueView};
use vstd::prelude::*;
use vstd::std_specs::cmp::PartialEqSpecImpl;

verus! {

/// What an access to the property `name` of the vertex `id` gives: see
/// `stored_cell`. The chunk of the vertex is `id / chunk_size`, and its row
/// there `id % chunk_size`.
pub open spec fn vertex_cell(
    groups: Seq<PropertyGroupView>,
    chunk_size: int,
    chunks: VertexChunksView,
    id: int,
    name: Seq<char>,
) -> Result<Option<ValueView>, GraphError> {
    stored_cell(groups, chunk_size, chunks.first_chunk, chunks.groups, id, name)
}

/// The vertices of one type, as their chunks hold them; all of them, or
/// those that have one label.
#[derive(Debug)]
pub struct Vertices {
    info: VertexInfo,
    chunks: VertexChunks,
    selected: Option<Selection>,
}

/// What a collection of vertices is, as a mathematical value: the schema,
/// the chunks, and, where the collection is restricted to the vertices of
/// one label, their ids, ascending.
pub struct VerticesView {
    pub info: VertexInfoView,
    pub chunks: VertexChunksView,
    pub selected: Option<Seq<i64>>,
}

/// The ids of a selection.
pub open spec fn selection(selected: Option<Selection>) -> Option<Seq<i64>> {
    match selected {
        Some(ids) => Some(ids@),
        None => None,
    }
}

impl VerticesView {
    /// How many vertices the collection holds: as many as were written, or
    /// as many as are selected.
    pub open spec fn size(self) -> nat {
        match self.selected {
            Some(ids) => ids.len(),
            None => self.chunks.count,
        }
    }

    /// The id of the end: the number of vertices that were written, or
    /// `i64::MAX` where that number is larger.
    pub open spec fn end_id(self) -> int {
        if self.chunks.count <= i64::MAX {
            self.chunks.count as int
        } else {
            i64::MAX as int
        }
    }

    /// The id at which an iteration starts: `0`, or the first selected id,
    /// or the end where nothing is selected.
    pub open spec fn first_id(self) -> int {
        match self.selected {
            Some(ids) => if ids.len() > 0 {
                ids[0] as int
            } else {
                self.end_id()
            },
            None => 0,
        }
    }

    /// The id after `id`: the next id, or the next selected id, or the end
    /// where no greater id is selected. The id `i64::MAX` has no next.
    pub open spec fn next_id(self, id: int) -> int {
        match self.selected {
            Some(ids) => {
                let k = first_greater(ids, id, 0);
                if k < ids.len() {
                    ids[k] as int
                } else {
                    self.end_id()
                }
            },
            None => if id < i64::MAX {
                id + 1
            } else {
                id
            },
        }
    }

    /// Whether the vertex `id` has the label `label`, as the label chunks
    /// say: see `label_cell`.
    pub open spec fn label(self, id: int, label: Seq<char>) -> Result<bool, GraphError> {
        label_cell(
            self.info.labels,
            self.info.chunk_size,
            self.chunks.first_chunk,
            self.chunks.labels,
            id,
            label,
        )
    }

    /// The labels that the vertex `id` has: see `labels_upto`.
    pub open spec fn labels(self, id: int) -> Result<Seq<Seq<char>>, GraphError> {
        labels_upto(
            self.info.labels,
            self.info.chunk_size,
            self.chunks.first_chunk,
            self.chunks.labels,
            id,
            self.info.labels.len() as int,
        )
    }

    /// What an access to the property `name` of the vertex `id` gives.
    pub open spec fn cell(self, id: int, name: Seq<char>) -> Result<Option<ValueView>, GraphError> {
        vertex_cell(self.info.property_groups, self.info.chunk_size, self.chunks, id, name)
    }
}

impl View for Vertices {
    type V = VerticesView;

    closed spec fn view(&self) -> VerticesView {
        VerticesView {
            info: self.info@,
            chunks: self.chunks@,
            selected: selection(self.selected),
        }
    }
}

/// What `Vertices::with_label` gives: `SchemaError` when the graph declares
/// no such type; else `OutOfRangeError` when more vertices were written than
/// `i64::MAX`; else the first error of an access to the label of a vertex;
/// else the collection of the vertices that have the label.
pub open spec fn vertices_with_label(
    graph: crate::graph_info::graph::GraphInfoView,
    ty: Seq<char>,
    label: Seq<char>,
    chunks: VertexChunksView,
) -> Result<VerticesView, GraphError> {
    let i = vertex_index(graph.vertex_infos, ty, 0);
    if i >= graph.vertex_infos.len() {
        Err(GraphError::SchemaError)
    } else if chunks.count > i64::MAX {
        Err(GraphError::OutOfRangeError)
    } else {
        let info = graph.vertex_infos[i];
        match labelled_upto(
            info.labels,
            info.chunk_size,
            chunks.first_chunk,
            chunks.labels,
            label,
            chunks.count as int,
        ) {
            Err(e) => Err(e),
            Ok(ids) => Ok(VerticesView { info, chunks, selected: Some(ids) }),
        }
    }
}

/// The chunk that an access to the property `name` of the vertex `id`
/// needs: the index of the first group that has the property, and the index
/// `id / size` of the chunk. `MissingPropertyError` where no group has the
/// property, and `OutOfRangeError` for a negative id.
pub open spec fn needed_chunk(
    groups: Seq<PropertyGroupView>,
    size: int,
    id: int,
    name: Seq<char>,
) -> Result<(usize, u64), GraphError> {
    let g = group_index(groups, name, 0);
    if g >= groups.len() {
        Err(GraphError::MissingPropertyError)
    } else if id < 0 {
        Err(GraphError::OutOfRangeError)
    } else {
        Ok((g as usize, (id / size) as u64))
    }
}

/// Whether a chunk can be put in its place: the type has the group, and the
/// chunk is not before the first one.
pub open spec fn chunk_fits(view: VerticesView, group: int, chunk: int) -> bool {
    0 <= group < view.info.property_groups.len() && view.chunks.first_chunk <= chunk
        < view.chunks.first_chunk + usize::MAX
}

impl Vertices {
    /// Opens the vertices of the type `ty` of a graph over the given chunks.
    /// Fails with `SchemaError` when the graph declares no such type.
    /// Nothing is read from the chunks here.
    pub fn new(graph_info: &GraphInfo, ty: &str, chunks: VertexChunks) -> (r: Result<
        Self,
        GraphError,
    >)
        ensures
            has_vertex_type(graph_info@.vertex_infos, ty@) ==> r is Ok && r->Ok_0@ == (VerticesView {
                info: graph_info@.vertex_infos[vertex_index(graph_info@.vertex_infos, ty@, 0)],
                chunks: chunks@,
                selected: None,
            }),
            !has_vertex_type(graph_info@.vertex_infos, ty@) ==> r == Err::<Self, GraphError>(
                GraphError::SchemaError,
            ),
    {
        match graph_info.vertex_info(ty) {
            Some(info) => Ok(Vertices { info, chunks, selected: None }),
            None => Err(GraphError::SchemaError),
        }
    }

    /// Opens the vertices of the type `ty` that have the label `label`: see
    /// `vertices_with_label`. The label chunks are read here.
    pub fn with_label(graph_info: &GraphInfo, ty: &str, label: &str, chunks: VertexChunks) -> (r:
        Result<Self, GraphError>)
        ensures
            match r {
                Ok(vertices) => vertices_with_label(graph_info@, ty@, label@, chunks@) == Ok::<
                    VerticesView,
                    GraphError,
                >(vertices@),
                Err(e) => vertices_with_label(graph_info@, ty@, label@, chunks@) == Err::<
                    VerticesView,
                    GraphError,
                >(e),
            },
    {
        let info = match graph_info.vertex_info(ty) {
            Some(info) => info,
            None => {
                return Err(GraphError::SchemaError);
            },
        };
        if chunks.count as u64 > i64::MAX as u64 {
            return Err(GraphError::OutOfRangeError);
        }
        let selected = match select_labelled(
            info.labels_ref(),
            info.chunk_size() as u64,
            chunks.first_chunk,
            &chunks.labels,
            label,
            chunks.count as u64,
        ) {
            Ok(ids) => ids,
            Err(e) => {
                return Err(e);
            },
        };
        Ok(Vertices { info, chunks, selected: Some(Selection::new(selected)) })
    }

    /// Opens the vertices of a type over the given chunks.
    pub fn open(vertex_info: &VertexInfo, chunks: VertexChunks) -> (r: Self)
        ensures
            r@ == (VerticesView { info: vertex_info@, chunks: chunks@, selected: None }),
    {
        Vertices { info: vertex_info.clone(), chunks, selected: None }
    }

    /// How many vertices the collection holds: as many as were written, as
    /// the chunks record it, or as many as are selected.
    pub fn len(&self) -> (r: usize)
        ensures
            r == self@.size(),
    {
        match &self.selected {
            Some(selected) => selected.ids().len(),
            None => self.chunks.count,
        }
    }

    /// Whether the collection holds no vertex.
    pub fn is_empty(&self) -> (r: bool)
        ensures
            r == (self@.size() == 0),
    {
        self.len() == 0
    }

    fn end_id(&self) -> (id: i64)
        ensures
            id == self@.end_id(),
    {
        let n = self.chunks.count;
        if n as u64 <= i64::MAX as u64 {
            n as i64
        } else {
            i64::MAX
        }
    }

    fn next_id(&self, id: i64) -> (r: i64)
        ensures
            r == self@.next_id(id as int),
    {
        match &self.selected {
            Some(selected) => {
                let ids = selected.ids();
                let k = search_greater(ids, id);
                if k < ids.len() {
                    ids[k]
                } else {
                    self.end_id()
                }
            },
            None => if id < i64::MAX {
                id + 1
            } else {
                id
            },
        }
    }

    /// The description of the type.
    pub fn vertex_info(&self) -> (r: &VertexInfo)
        ensures
            r@ == self@.info,
    {
        &self.info
    }

    /// An iterator at the first vertex: the vertex `0`, or the first
    /// selected one, or the end where nothing is selected.
    pub fn begin(&self) -> (it: VertexIter<'_>)
        ensures
            it.id_spec() == self@.first_id(),
            it.vertices_spec() == self,
    {
        let id = match &self.selected {
            Some(selected) => {
                let ids = selected.ids();
                if ids.len() > 0 {
                    ids[0]
                } else {
                    self.end_id()
                }
            },
            None => 0,
        };
        VertexIter { vertices: self, id }
    }

    /// An iterator at the end: its id is the number of vertices that were
    /// written, or `i64::MAX` where that number is larger.
    pub fn end(&self) -> (it: VertexIter<'_>)
        ensures
            it.id_spec() == self@.end_id(),
            it.vertices_spec() == self,
    {
        VertexIter { vertices: self, id: self.end_id() }
    }

    /// An iterator at the vertex `id`. Nothing is read, and nothing checked:
    /// an access through the iterator says whether the vertex is there.
    pub fn find(&self, id: i64) -> (it: VertexIter<'_>)
        ensures
            it.id_spec() == id,
            it.vertices_spec() == self,
    {
        VertexIter { vertices: self, id }
    }

    /// The chunk that an access to the property `name` of the vertex `id`
    /// needs: see `needed_chunk`.
    pub fn needed_chunk(&self, id: i64, name: &str) -> (r: Result<(usize, u64), GraphError>)
        ensures
            r == needed_chunk(self@.info.property_groups, self@.info.chunk_size, id as int, name@),
    {
        let groups = self.info.property_groups_ref();
        let g = find_group(groups, name);
        if g >= groups.len() {
            return Err(GraphError::MissingPropertyError);
        }
        if id < 0 {
            return Err(GraphError::OutOfRangeError);
        }
        Ok((g, id as u64 / self.info.chunk_size() as u64))
    }

    /// Whether the chunk `chunk` of the group `group` is there and holds
    /// columns.
    pub fn has_chunk(&self, group: usize, chunk: u64) -> (r: bool)
        ensures
            r == chunk_present(
                self@.chunks.groups,
                group as int,
                chunk - self@.chunks.first_chunk,
            ),
    {
        if chunk < self.chunks.first_chunk || group >= self.chunks.groups.len() {
            return false;
        }
        let j = chunk - self.chunks.first_chunk;
        if j >= self.chunks.groups[group].len() as u64 {
            return false;
        }
        has_chunk(&self.chunks.groups, group, j as usize)
    }

    /// Puts the chunk `chunk` of the group `group` in its place, in place of
    /// what was there: see `supplied`. Fails with `OutOfRangeError`, and
    /// changes nothing, where the chunk does not fit: see `chunk_fits`.
    pub fn supply(&mut self, group: usize, chunk: u64, data: Chunk) -> (r: Result<(), GraphError>)
        ensures
            chunk_fits(old(self)@, group as int, chunk as int) ==> r is Ok && final(self)@ == (
            VerticesView {
                chunks: VertexChunksView {
                    groups: supplied(
                        old(self)@.chunks.groups,
                        group as int,
                        chunk - old(self)@.chunks.first_chunk,
                        data@,
                    ),
                    ..old(self)@.chunks
                },
                ..old(self)@
            }),
            !chunk_fits(old(self)@, group as int, chunk as int) ==> r == Err::<(), GraphError>(
                GraphError::OutOfRangeError,
            ) && final(self)@ == old(self)@,
    {
        if group >= self.info.property_groups_ref().len() || chunk < self.chunks.first_chunk
            || chunk - self.chunks.first_chunk >= usize::MAX as u64 {
            return Err(GraphError::OutOfRangeError);
        }
        let j = (chunk - self.chunks.first_chunk) as usize;
        supply_chunk(&mut self.chunks.groups, group, j, data);
        Ok(())
    }

    /// Takes the chunk `chunk` of the group `group` away: a chunk that holds
    /// nothing takes its place. Fails as `supply` does.
    pub fn release(&mut self, group: usize, chunk: u64) -> (r: Result<(), GraphError>)
        ensures
            chunk_fits(old(self)@, group as int, chunk as int) ==> r is Ok && final(self)@ == (
            VerticesView {
                chunks: VertexChunksView {
                    groups: supplied(
                        old(self)@.chunks.groups,
                        group as int,
                        chunk - old(self)@.chunks.first_chunk,
                        Seq::<Seq<Option<ValueView>>>::empty(),
                    ),
                    ..old(self)@.chunks
                },
                ..old(self)@
            }),
            !chunk_fits(old(self)@, group as int, chunk as int) ==> r == Err::<(), GraphError>(
                GraphError::OutOfRangeError,
            ) && final(self)@ == old(self)@,
    {
        let nothing = Chunk { columns: Vec::new() };
        assert(nothing@ =~= Seq::<Seq<Option<ValueView>>>::empty());
        self.supply(group, chunk, nothing)
    }

    /// The cell of the property `name` of the vertex `id`: see
    /// `vertex_cell`.
    pub fn cell(&self, id: i64, name: &str) -> (r: Result<Option<&Value>, GraphError>)
        ensures
            cell_view(r) == self@.cell(id as int, name@),
    {
        read_stored_cell(
            self.info.property_groups_ref(),
            self.info.chunk_size() as u64,
            self.chunks.first_chunk,
            &self.chunks.groups,
            id,
            name,
        )
    }
}

/// A position among the vertices of a collection.
#[derive(Debug)]
pub struct VertexIter<'a> {
    vertices: &'a Vertices,
    id: i64,
}

impl<'a> PartialEq for VertexIter<'a> {
    /// Two iterators are equal when they stand at the same id.
    fn eq(&self, other: &Self) -> (r: bool) {
        self.id == other.id
    }
}

impl<'a> PartialEqSpecImpl for VertexIter<'a> {
    open spec fn obeys_eq_spec() -> bool {
        true
    }

    open spec fn eq_spec(&self, other: &Self) -> bool {
        self.id_spec() == other.id_spec()
    }
}

impl<'a> Eq for VertexIter<'a> {

}

impl<'a> VertexIter<'a> {
    /// The id at which the iterator stands.
    pub closed spec fn id_spec(&self) -> int {
        self.id as int
    }

    /// The collection over which the iterator runs.
    pub closed spec fn vertices_spec(&self) -> &Vertices {
        self.vertices
    }

    /// The id at which the iterator stands.
    pub fn id(&self) -> (r: i64)
        ensures
            r == self.id_spec(),
    {
        self.id
    }

    /// The index of the chunk that holds the vertex, `id / chunk_size`;
    /// `OutOfRangeError` for a negative id.
    pub fn chunk_index(&self) -> (r: Result<i64, GraphError>)
        ensures
            self.id_spec() >= 0 ==> r == Ok::<i64, GraphError>(
                (self.id_spec() / self.vertices_spec()@.info.chunk_size) as i64,
            ),
            self.id_spec() < 0 ==> r == Err::<i64, GraphError>(GraphError::OutOfRangeError),
    {
        if self.id < 0 {
            return Err(GraphError::OutOfRangeError);
        }
        Ok(self.id / self.vertices.info.chunk_size())
    }

    /// The row of the vertex in its chunk, `id % chunk_size`;
    /// `OutOfRangeError` for a negative id.
    pub fn row_offset(&self) -> (r: Result<i64, GraphError>)
        ensures
            self.id_spec() >= 0 ==> r == Ok::<i64, GraphError>(
                (self.id_spec() % self.vertices_spec()@.info.chunk_size) as i64,
            ),
            self.id_spec() < 0 ==> r == Err::<i64, GraphError>(GraphError::OutOfRangeError),
    {
        if self.id < 0 {
            return Err(GraphError::OutOfRangeError);
        }
        Ok(self.id % self.vertices.info.chunk_size())
    }

    /// Whether the iterator stands at the end of its collection.
    pub fn is_end(&self) -> (r: bool)
        ensures
            r == (self.id_spec() >= 0 && self.id_spec() >= self.vertices_spec()@.chunks.count),
    {
        self.id >= 0 && self.id as u64 >= self.vertices.chunks.count as u64
    }

    /// Moves on: by one id, or, in a collection of selected vertices, to the
    /// next selected id, or to the end after the last. An iterator at
    /// `i64::MAX` stays.
    pub fn next(&mut self)
        ensures
            final(self).vertices_spec() == old(self).vertices_spec(),
            final(self).id_spec() == old(self).vertices_spec()@.next_id(old(self).id_spec()),
    {
        self.id = self.vertices.next_id(self.id);
    }

    /// The vertex at which the iterator stands, after which the iterator
    /// moves on; `None`, and no move, where the iterator stands at the end.
    pub fn next_vertex(&mut self) -> (r: Option<Vertex<'a>>)
        ensures
            final(self).vertices_spec() == old(self).vertices_spec(),
            ({
                let view = old(self).vertices_spec()@;
                let id = old(self).id_spec();
                if id >= 0 && id >= view.chunks.count {
                    r is None && final(self).id_spec() == id
                } else {
                    r is Some && r->Some_0.id_spec() == id && r->Some_0.vertices_spec() == old(
                        self,
                    ).vertices_spec() && final(self).id_spec() == view.next_id(id)
                }
            }),
    {
        if self.is_end() {
            None
        } else {
            let vertex = self.vertex();
            self.next();
            Some(vertex)
        }
    }

    /// Whether the vertex at which the iterator stands has the label: see
    /// `label_cell`.
    pub fn has_label(&self, label: &str) -> (r: Result<bool, GraphError>)
        ensures
            r == self.vertices_spec()@.label(self.id_spec(), label@),
    {
        read_label(
            self.vertices.info.labels_ref(),
            self.vertices.info.chunk_size() as u64,
            self.vertices.chunks.first_chunk,
            &self.vertices.chunks.labels,
            self.id,
            label,
        )
    }

    /// The labels that the vertex at which the iterator stands has, in the
    /// order of the type: see `labels_upto`.
    pub fn labels(&self) -> (r: Result<Vec<String>, GraphError>)
        ensures
            match r {
                Ok(found) => self.vertices_spec()@.labels(self.id_spec()) == Ok::<
                    Seq<Seq<char>>,
                    GraphError,
                >(found.deep_view()),
                Err(e) => self.vertices_spec()@.labels(self.id_spec()) == Err::<
                    Seq<Seq<char>>,
                    GraphError,
                >(e),
            },
    {
        read_labels(
            self.vertices.info.labels_ref(),
            self.vertices.info.chunk_size() as u64,
            self.vertices.chunks.first_chunk,
            &self.vertices.chunks.labels,
            self.id,
        )
    }

    /// The vertex at which the iterator stands.
    pub fn vertex(&self) -> (v: Vertex<'a>)
        ensures
            v.id_spec() == self.id_spec(),
            v.vertices_spec() == self.vertices_spec(),
    {
        Vertex { vertices: self.vertices, id: self.id }
    }

    /// The cell of the property `name` of the vertex at which the iterator
    /// stands: see `vertex_cell`.
    pub fn cell(&self, name: &str) -> (r: Result<Option<&'a Value>, GraphError>)
        ensures
            cell_view(r) == self.vertices_spec()@.cell(self.id_spec(), name@),
    {
        self.vertices.cell(self.id, name)
    }

    /// The property `name` of the vertex at which the iterator stands, read
    /// as the type `T`: see `typed_read`.
    pub fn property<T>(&self, name: &str) -> (r: Result<T, GraphError>) where
        (): SupportedPropertyType<T>,

        ensures
            typed_read::<T>(
                declared_type(self.vertices_spec()@.info.property_groups, name@),
                self.vertices_spec()@.cell(self.id_spec(), name@),
                r,
            ),
    {
        read_cell::<T>(
            find_declared_type(self.vertices.info.property_groups_ref(), name),
            self.vertices.cell(self.id, name),
        )
    }
}

/// One vertex of a collection.
#[derive(Debug)]
pub struct Vertex<'a> {
    vertices: &'a Vertices,
    id: i64,
}

impl<'a> Vertex<'a> {
    /// The id of the vertex.
    pub closed spec fn id_spec(&self) -> int {
        self.id as int
    }

    /// The collection to which the vertex belongs.
    pub closed spec fn vertices_spec(&self) -> &Vertices {
        self.vertices
    }

    /// The id of the vertex.
    pub fn id(&self) -> (r: i64)
        ensures
            r == self.id_spec(),
    {
        self.id
    }

    /// Whether the vertex has a value for the property: the access succeeds
    /// and the cell is not empty.
    pub fn is_valid(&self, property: &str) -> (r: bool)
        ensures
            r == (self.vertices_spec()@.cell(self.id_spec(), property@) matches Ok(Some(_))),
    {
        match self.vertices.cell(self.id, property) {
            Ok(Some(_)) => true,
            _ => false,
        }
    }

    /// The property `name` of the vertex, read as the type `T`: see
    /// `typed_read`.
    pub fn property<T>(&self, name: &str) -> (r: Result<T, GraphError>) where
        (): SupportedPropertyType<T>,

        ensures
            typed_read::<T>(
                declared_type(self.vertices_spec()@.info.property_groups, name@),
                self.vertices_spec()@.cell(self.id_spec(), name@),
                r,
            ),
    {
        read_cell::<T>(
            find_declared_type(self.vertices.info.property_groups_ref(), name),
            self.vertices.cell(self.id, name),
        )
    }
}


/// The chunks that a dump makes: as many vertices as records; for every
/// group as many chunks as `chunk_size` asks for, which is the number of
/// records divided by the chunk size, rounded up; `chunk_size` rows in each
/// chunk but the last, which holds the remainder; and one column per
/// property.
pub proof fn lemma_dump_shape(
    info: VertexInfoView,
    records: Seq<RecordView>,
    start_idx: int,
    g: int,
    j: int,
    c: int,
)
    requires
        info.wf(),
        0 <= g < info.property_groups.len(),
        0 <= j < chunk_count(records.len() as int, info.chunk_size),
        0 <= c < info.property_groups[g].properties.len(),
    ensures
        ({
            let chunks = vertex_chunks(info, records, start_idx);
            let total = records.len() as int;
            &&& chunks.count == records.len()
            &&& chunks.groups.len() == info.property_groups.len()
            &&& chunks.groups[g].len() == chunk_count(total, info.chunk_size)
            &&& chunks.groups[g][j].len() == info.property_groups[g].properties.len()
            &&& chunks.groups[g][j][c].len() == chunk_rows(total, info.chunk_size, j)
            &&& 0 < chunk_rows(total, info.chunk_size, j) <= info.chunk_size
            &&& j < chunk_count(total, info.chunk_size) - 1 ==> chunk_rows(
                total,
                info.chunk_size,
                j,
            ) == info.chunk_size
            &&& (chunk_count(total, info.chunk_size) - 1) * info.chunk_size < total
                <= chunk_count(total, info.chunk_size) * info.chunk_size
        }),
{
    lemma_chunk_bounds(records.len() as int, info.chunk_size, j);
    lemma_chunk_count_is_ceiling(records.len() as int, info.chunk_size);
}

/// After a dump of `records` from a first id that is a multiple of the chunk
/// size, the vertex `id` of the written range is found in the chunks with
/// exactly the cells of its record: for every declared property, the value
/// that the record has, and `None` where it has none.
pub proof fn lemma_find_after_dump(
    info: VertexInfoView,
    records: Seq<RecordView>,
    start_idx: int,
    id: int,
    name: Seq<char>,
)
    requires
        info.wf(),
        0 <= start_idx,
        start_idx % info.chunk_size == 0,
        start_idx <= id < start_idx + records.len(),
        group_index(info.property_groups, name, 0) < info.property_groups.len(),
    ensures
        vertex_cell(
            info.property_groups,
            info.chunk_size,
            vertex_chunks(info, records, start_idx),
            id,
            name,
        ) == Ok::<Option<ValueView>, GraphError>(cell_of(records[id - start_idx], name)),
{
    let size = info.chunk_size;
    vstd::arithmetic::div_mod::lemma_fundamental_div_mod(start_idx, size);
    vstd::arithmetic::div_mod::lemma_div_pos_is_pos(start_idx, size);
    assert((start_idx / size) * size == start_idx) by (nonlinear_arith)
        requires
            start_idx == size * (start_idx / size) + start_idx % size,
            start_idx % size == 0,
    ;
    lemma_stored_cell(info.property_groups, size, records, start_idx / size, id, name);
}

/// A vertex is found as soon as its chunk is there: where the chunk that an
/// access needs was put in its place as a dump of `records` made it, the
/// access gives exactly the cell of the vertex's record, whatever the other
/// chunks hold.
pub proof fn lemma_find_after_supply(
    info: VertexInfoView,
    records: Seq<RecordView>,
    start_idx: int,
    chunks: VertexChunksView,
    id: int,
    name: Seq<char>,
)
    requires
        info.wf(),
        0 <= start_idx,
        start_idx % info.chunk_size == 0,
        start_idx <= id < start_idx + records.len(),
        group_index(info.property_groups, name, 0) < info.property_groups.len(),
        chunks.first_chunk == start_idx / info.chunk_size,
    ensures
        ({
            let g = group_index(info.property_groups, name, 0);
            let j = id / info.chunk_size - chunks.first_chunk;
            let dumped = vertex_chunks(info, records, start_idx);
            let after = VertexChunksView {
                groups: supplied(chunks.groups, g, j, dumped.groups[g][j]),
                ..chunks
            };
            &&& needed_chunk(info.property_groups, info.chunk_size, id, name) == Ok::<
                (usize, u64),
                GraphError,
            >((g as usize, (id / info.chunk_size) as u64))
            &&& 0 <= j < dumped.groups[g].len()
            &&& vertex_cell(info.property_groups, info.chunk_size, after, id, name) == Ok::<
                Option<ValueView>,
                GraphError,
            >(cell_of(records[id - start_idx], name))
        }),
{
    let size = info.chunk_size;
    let g = group_index(info.property_groups, name, 0);
    let first = start_idx / size;
    let j = id / size - first;
    let dumped = vertex_chunks(info, records, start_idx);
    vstd::arithmetic::div_mod::lemma_fundamental_div_mod(start_idx, size);
    vstd::arithmetic::div_mod::lemma_div_pos_is_pos(start_idx, size);
    vstd::arithmetic::div_mod::lemma_div_is_ordered(start_idx, id, size);
    assert(first * size == start_idx) by (nonlinear_arith)
        requires
            start_idx == size * first + start_idx % size,
            start_idx % size == 0,
    ;
    crate::graph_info::property::lemma_group_index(info.property_groups, name, 0);
    crate::chunk::lemma_chunk_of_row(size, records.len() as int, first, id);
    assert(dumped.groups[g] == crate::chunk::group_chunks(
        records,
        info.property_groups[g].properties,
        size,
    ));
    lemma_supplied(chunks.groups, g, j, dumped.groups[g][j]);
    lemma_stored_cell_in_chunk(
        info.property_groups,
        size,
        records,
        first,
        supplied(chunks.groups, g, j, dumped.groups[g][j]),
        id,
        name,
    );
}

} // verus!
