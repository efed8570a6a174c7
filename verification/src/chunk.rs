//! Records of property values, and the chunks into which rows of records
//! are cut: one chunk per property group for every `chunk_size` rows, with
//! one column per property of the group.

use crate::error::GraphError;
use crate::graph_info::property::{
    find_group, find_property, group_index, lemma_group_index, lemma_property_index, property_index,
    Property, PropertyGroup, PropertyGroupView, PropertyView,
};
use crate::text::str_eq;
use crate::value::{value_has_type, Value, ValueView};
use vstd::prelude::*;
use vstd::string::*;

verus! {

/// What a record is, as a mathematical value: a map from property names to
/// values.
pub type RecordView = Map<Seq<char>, ValueView>;

/// The map that a list of entries builds up, a later entry replacing an
/// earlier one of the same name.
pub open spec fn record_map(entries: Seq<(Seq<char>, ValueView)>) -> RecordView
    decreases entries.len(),
{
    if entries.len() == 0 {
        Map::empty()
    } else {
        record_map(entries.drop_last()).insert(entries.last().0, entries.last().1)
    }
}

/// The values of one vertex or edge, by property name.
#[derive(Debug)]
pub struct Record {
    entries: Vec<(String, Value)>,
}

impl View for Record {
    type V = RecordView;

    closed spec fn view(&self) -> RecordView {
        record_map(self.entries.deep_view())
    }
}

impl DeepView for Record {
    type V = RecordView;

    open spec fn deep_view(&self) -> RecordView {
        self@
    }
}

impl Record {
    /// A record without values.
    pub fn new() -> (r: Self)
        ensures
            r@ == Map::<Seq<char>, ValueView>::empty(),
    {
        Record { entries: Vec::new() }
    }

    /// Sets the value of the property `name`, replacing an earlier one.
    pub fn insert(&mut self, name: String, value: Value)
        ensures
            final(self)@ == old(self)@.insert(name@, value@),
    {
        self.entries.push((name, value));
        assert(self.entries.deep_view().drop_last() =~= old(self).entries.deep_view());
    }

    /// The value of the property `name`, if the record has one.
    pub fn get(&self, name: &str) -> (r: Option<&Value>)
        ensures
            r is Some <==> self@.contains_key(name@),
            r is Some ==> r->Some_0@ == self@[name@],
    {
        let ghost all = self.entries.deep_view();
        let mut k: usize = self.entries.len();
        assert(all.take(k as int) =~= all);
        while k > 0
            invariant
                0 <= k <= self.entries@.len(),
                all == self.entries.deep_view(),
                record_map(all).contains_key(name@) == record_map(all.take(k as int)).contains_key(
                    name@,
                ),
                record_map(all).contains_key(name@) ==> record_map(all)[name@] == record_map(
                    all.take(k as int),
                )[name@],
            decreases k,
        {
            k -= 1;
            assert(all.take(k + 1).drop_last() =~= all.take(k as int));
            if str_eq(self.entries[k].0.as_str(), name) {
                return Some(&self.entries[k].1);
            }
        }
        None
    }
}

/// The cell that a record gives for a property: its value, or nothing.
pub open spec fn cell_of(record: RecordView, name: Seq<char>) -> Option<ValueView> {
    if record.contains_key(name) {
        Some(record[name])
    } else {
        None
    }
}

/// Whether a record breaks a rule for one property. With `check_types` off
/// the rule is that a property that is not nullable has a value; with it on,
/// that a value has the declared type.
pub open spec fn property_fails(record: RecordView, p: PropertyView, check_types: bool) -> bool {
    if check_types {
        record.contains_key(p.name) && !value_has_type(record[p.name], p.data_type)
    } else {
        !p.is_nullable && !record.contains_key(p.name)
    }
}

/// Whether a record breaks the rule for a property of the list.
pub open spec fn properties_fail(
    record: RecordView,
    properties: Seq<PropertyView>,
    check_types: bool,
) -> bool {
    exists|c: int| 0 <= c < properties.len() && property_fails(record, properties[c], check_types)
}

/// Whether a record breaks the rule for a property of one of the groups.
pub open spec fn record_fails(
    record: RecordView,
    groups: Seq<PropertyGroupView>,
    check_types: bool,
) -> bool {
    exists|g: int|
        0 <= g < groups.len() && properties_fail(record, groups[g].properties, check_types)
}

/// Whether one of the records breaks the rule for a property of one of the
/// groups.
pub open spec fn rows_fail(
    rows: Seq<RecordView>,
    groups: Seq<PropertyGroupView>,
    check_types: bool,
) -> bool {
    exists|r: int| 0 <= r < rows.len() && record_fails(rows[r], groups, check_types)
}

fn check_properties(record: &Record, properties: &Vec<Property>, check_types: bool) -> (r: bool)
    ensures
        r == properties_fail(record@, properties.deep_view(), check_types),
{
    let ghost ps = properties.deep_view();
    let mut c: usize = 0;
    while c < properties.len()
        invariant
            0 <= c <= properties@.len(),
            ps == properties.deep_view(),
            forall|k: int| 0 <= k < c ==> !property_fails(record@, ps[k], check_types),
        decreases properties@.len() - c,
    {
        let p = &properties[c];
        let value = record.get(p.name_str());
        let fails = if check_types {
            match value {
                Some(v) => !v.has_type(&p.data_type()),
                None => false,
            }
        } else {
            !p.is_nullable() && value.is_none()
        };
        if fails {
            assert(property_fails(record@, ps[c as int], check_types));
            return true;
        }
        c += 1;
    }
    false
}

fn check_record(record: &Record, groups: &Vec<PropertyGroup>, check_types: bool) -> (r: bool)
    ensures
        r == record_fails(record@, groups.deep_view(), check_types),
{
    let ghost gs = groups.deep_view();
    let mut g: usize = 0;
    while g < groups.len()
        invariant
            0 <= g <= groups@.len(),
            gs == groups.deep_view(),
            forall|k: int| 0 <= k < g ==> !properties_fail(record@, gs[k].properties, check_types),
        decreases groups@.len() - g,
    {
        if check_properties(record, groups[g].properties_ref(), check_types) {
            assert(properties_fail(record@, gs[g as int].properties, check_types));
            return true;
        }
        g += 1;
    }
    false
}

/// Whether one of the rows breaks a rule for a property of one of the
/// groups: see `property_fails`.
pub(crate) fn check_rows(rows: &Vec<&Record>, groups: &Vec<PropertyGroup>, check_types: bool) -> (r: bool)
    ensures
        r == rows_fail(rows.deep_view(), groups.deep_view(), check_types),
{
    let ghost rs = rows.deep_view();
    let mut i: usize = 0;
    while i < rows.len()
        invariant
            0 <= i <= rows@.len(),
            rs == rows.deep_view(),
            forall|k: int| 0 <= k < i ==> !record_fails(rs[k], groups.deep_view(), check_types),
        decreases rows@.len() - i,
    {
        if check_record(rows[i], groups, check_types) {
            assert(record_fails(rs[i as int], groups.deep_view(), check_types));
            return true;
        }
        i += 1;
    }
    false
}

/// The cells of a chunk: for each column, one cell per row.
pub type ChunkView = Seq<Seq<Option<ValueView>>>;

/// The rows of one property group that lie in one chunk, column by column.
/// A cell without a value is `None`.
#[derive(Debug)]
pub struct Chunk {
    pub columns: Vec<Vec<Option<Value>>>,
}

impl View for Chunk {
    type V = ChunkView;

    open spec fn view(&self) -> ChunkView {
        self.columns.deep_view()
    }
}

impl DeepView for Chunk {
    type V = ChunkView;

    open spec fn deep_view(&self) -> ChunkView {
        self.columns.deep_view()
    }
}

/// The column of the property `name` for `count` rows from `start` on.
pub open spec fn column_cells(rows: Seq<RecordView>, name: Seq<char>, start: int, count: int) -> Seq<
    Option<ValueView>,
> {
    Seq::new(count as nat, |r: int| cell_of(rows[start + r], name))
}

/// The chunk of `count` rows from `start` on: one column for each property.
pub open spec fn chunk_cells(
    rows: Seq<RecordView>,
    properties: Seq<PropertyView>,
    start: int,
    count: int,
) -> ChunkView {
    Seq::new(properties.len(), |c: int| column_cells(rows, properties[c].name, start, count))
}

/// How many chunks `total` rows fill when a chunk holds `size` rows: the
/// full chunks, and one more for a remainder.
pub open spec fn chunk_count(total: int, size: int) -> int {
    total / size + if total % size == 0 {
        0int
    } else {
        1int
    }
}

/// How many rows the chunk `j` holds: `size` in a full chunk, the remainder
/// in the last one.
pub open spec fn chunk_rows(total: int, size: int, j: int) -> int {
    if j < total / size {
        size
    } else {
        total % size
    }
}

/// The chunks of one property group: chunk `j` holds the rows from
/// `j * size` on.
pub open spec fn group_chunks(rows: Seq<RecordView>, properties: Seq<PropertyView>, size: int) -> Seq<
    ChunkView,
> {
    Seq::new(
        chunk_count(rows.len() as int, size) as nat,
        |j: int| chunk_cells(rows, properties, j * size, chunk_rows(rows.len() as int, size, j)),
    )
}

/// The chunks of every property group.
pub open spec fn all_chunks(rows: Seq<RecordView>, groups: Seq<PropertyGroupView>, size: int) -> Seq<
    Seq<ChunkView>,
> {
    Seq::new(groups.len(), |g: int| group_chunks(rows, groups[g].properties, size))
}

/// The number of chunks is the number of rows divided by the chunk size,
/// rounded up: the chunks hold all rows, and one chunk less would not.
pub proof fn lemma_chunk_count_is_ceiling(total: int, size: int)
    requires
        0 <= total,
        0 < size,
    ensures
        0 <= chunk_count(total, size),
        (chunk_count(total, size) - 1) * size < total || total == 0,
        total <= chunk_count(total, size) * size,
        total == 0 <==> chunk_count(total, size) == 0,
{
    vstd::arithmetic::div_mod::lemma_fundamental_div_mod(total, size);
    vstd::arithmetic::div_mod::lemma_mod_bound(total, size);
    vstd::arithmetic::div_mod::lemma_div_pos_is_pos(total, size);
    let q = total / size;
    assert(size * q == q * size) by (nonlinear_arith);
    assert((q + 1) * size == q * size + size) by (nonlinear_arith);
    assert((q - 1) * size == q * size - size) by (nonlinear_arith);
    if q == 0 {
        assert(q * size == 0) by (nonlinear_arith)
            requires
                q == 0,
        ;
    }
}

/// Chunk `j` starts inside the rows and ends inside them.
pub proof fn lemma_chunk_bounds(total: int, size: int, j: int)
    requires
        0 <= total,
        0 < size,
        0 <= j < chunk_count(total, size),
    ensures
        0 <= j * size,
        0 < chunk_rows(total, size, j) <= size,
        j * size + chunk_rows(total, size, j) <= total,
        j < chunk_count(total, size) - 1 ==> chunk_rows(total, size, j) == size,
{
    vstd::arithmetic::div_mod::lemma_fundamental_div_mod(total, size);
    vstd::arithmetic::div_mod::lemma_mod_bound(total, size);
    vstd::arithmetic::div_mod::lemma_div_pos_is_pos(total, size);
    let q = total / size;
    assert(j <= q);
    assert(j * size <= q * size) by (nonlinear_arith)
        requires
            0 <= j <= q,
            0 < size,
    ;
    assert(0 <= j * size) by (nonlinear_arith)
        requires
            0 <= j,
            0 < size,
    ;
    assert(size * q == q * size) by (nonlinear_arith);
    if j < q {
        assert(j * size + size <= q * size) by (nonlinear_arith)
            requires
                0 <= j < q,
                0 < size,
        ;
    }
}

fn build_column(rows: &Vec<&Record>, name: &str, start: usize, count: usize) -> (col: Vec<
    Option<Value>,
>)
    requires
        start + count <= rows@.len(),
    ensures
        col.deep_view() == column_cells(rows.deep_view(), name@, start as int, count as int),
{
    let ghost rs = rows.deep_view();
    let total = rows.len();
    let mut col: Vec<Option<Value>> = Vec::new();
    let mut r: usize = 0;
    while r < count
        invariant
            0 <= r <= count,
            start + count <= rows@.len() == total,
            rs == rows.deep_view(),
            col@.len() == r,
            forall|k: int| 0 <= k < r ==> (#[trigger] col@[k]).deep_view() == cell_of(rs[start + k], name@),
        decreases count - r,
    {
        let cell = match rows[start + r].get(name) {
            Some(v) => Some(v.clone()),
            None => None,
        };
        col.push(cell);
        r += 1;
    }
    assert(col.deep_view() =~= column_cells(rs, name@, start as int, count as int));
    col
}

fn build_chunk(rows: &Vec<&Record>, properties: &Vec<Property>, start: usize, count: usize) -> (chunk:
    Chunk)
    requires
        start + count <= rows@.len(),
    ensures
        chunk@ == chunk_cells(rows.deep_view(), properties.deep_view(), start as int, count as int),
{
    let ghost rs = rows.deep_view();
    let ghost ps = properties.deep_view();
    let mut columns: Vec<Vec<Option<Value>>> = Vec::new();
    let mut c: usize = 0;
    while c < properties.len()
        invariant
            0 <= c <= properties@.len(),
            start + count <= rows@.len(),
            rs == rows.deep_view(),
            ps == properties.deep_view(),
            columns@.len() == c,
            forall|k: int|
                0 <= k < c ==> (#[trigger] columns@[k]).deep_view() == column_cells(
                    rs,
                    ps[k].name,
                    start as int,
                    count as int,
                ),
        decreases properties@.len() - c,
    {
        columns.push(build_column(rows, properties[c].name_str(), start, count));
        c += 1;
    }
    let chunk = Chunk { columns };
    assert(chunk@ =~= chunk_cells(rs, ps, start as int, count as int));
    chunk
}

/// Cuts the rows into the chunks of one property group.
pub(crate) fn build_group_chunks(rows: &Vec<&Record>, properties: &Vec<Property>, size: u64) -> (chunks:
    Vec<Chunk>)
    requires
        size > 0,
    ensures
        chunks.deep_view() == group_chunks(
            rows.deep_view(),
            properties.deep_view(),
            size as int,
        ),
{
    let ghost rs = rows.deep_view();
    let ghost ps = properties.deep_view();
    let total: u64 = rows.len() as u64;
    let full: u64 = total / size;
    let rest: u64 = total % size;
    proof {
        vstd::arithmetic::div_mod::lemma_fundamental_div_mod(total as int, size as int);
        assert(size * (total / size) >= total / size) by (nonlinear_arith)
            requires
                size > 0,
                total / size >= 0,
        ;
    }
    let count: u64 = if rest == 0 {
        full
    } else {
        full + 1
    };
    let mut chunks: Vec<Chunk> = Vec::new();
    let mut j: u64 = 0;
    while j < count
        invariant
            0 <= j <= count,
            size > 0,
            total == rows@.len(),
            total <= usize::MAX,
            full == total / size,
            rest == total % size,
            count == chunk_count(total as int, size as int),
            rs == rows.deep_view(),
            ps == properties.deep_view(),
            chunks@.len() == j,
            forall|k: int|
                0 <= k < j ==> (#[trigger] chunks@[k]).deep_view() == chunk_cells(
                    rs,
                    ps,
                    k * size,
                    chunk_rows(total as int, size as int, k),
                ),
        decreases count - j,
    {
        proof {
            lemma_chunk_bounds(total as int, size as int, j as int);
        }
        let start: u64 = j * size;
        let n: u64 = if j < full {
            size
        } else {
            rest
        };
        chunks.push(build_chunk(rows, properties, start as usize, n as usize));
        j += 1;
    }
    assert(chunks.deep_view() =~= group_chunks(rs, ps, size as int));
    chunks
}

/// Cuts the rows into the chunks of every property group.
pub(crate) fn build_all_chunks(rows: &Vec<&Record>, groups: &Vec<PropertyGroup>, size: u64) -> (out: Vec<
    Vec<Chunk>,
>)
    requires
        size > 0,
    ensures
        out.deep_view() == all_chunks(rows.deep_view(), groups.deep_view(), size as int),
{
    let ghost rs = rows.deep_view();
    let ghost gs = groups.deep_view();
    let mut out: Vec<Vec<Chunk>> = Vec::new();
    let mut g: usize = 0;
    while g < groups.len()
        invariant
            0 <= g <= groups@.len(),
            size > 0,
            rs == rows.deep_view(),
            gs == groups.deep_view(),
            out@.len() == g,
            forall|k: int|
                0 <= k < g ==> (#[trigger] out@[k]).deep_view() == group_chunks(
                    rs,
                    gs[k].properties,
                    size as int,
                ),
        decreases groups@.len() - g,
    {
        out.push(build_group_chunks(rows, groups[g].properties_ref(), size));
        g += 1;
    }
    assert(out.deep_view() =~= all_chunks(rs, gs, size as int));
    out
}


/// The chunks of one vertex type: how many vertices were written, the index
/// of the first chunk, for each property group its chunks in order, so that
/// `groups[g][j]` is the chunk `first_chunk + j` of the group `g`, and the
/// label chunks, in which the column `l` says with a boolean for each vertex
/// whether it has the label `l` of the type. A builder writes no label
/// chunks.
#[derive(Debug)]
pub struct VertexChunks {
    pub count: usize,
    pub first_chunk: u64,
    pub groups: Vec<Vec<Chunk>>,
    pub labels: Vec<Chunk>,
}

/// What the chunks of a vertex type are, as a mathematical value.
pub struct VertexChunksView {
    pub count: nat,
    pub first_chunk: nat,
    pub groups: Seq<Seq<ChunkView>>,
    pub labels: Seq<ChunkView>,
}

impl View for VertexChunks {
    type V = VertexChunksView;

    open spec fn view(&self) -> VertexChunksView {
        VertexChunksView {
            count: self.count as nat,
            first_chunk: self.first_chunk as nat,
            groups: self.groups.deep_view(),
            labels: self.labels.deep_view(),
        }
    }
}

impl DeepView for VertexChunks {
    type V = VertexChunksView;

    open spec fn deep_view(&self) -> VertexChunksView {
        self@
    }
}


/// The edges whose pivot endpoint lies in one vertex chunk: their source and
/// destination ids, row by row, and, for an ordered adjacency kind, the
/// offset table: for each vertex of the chunk the row at which its edges
/// start, and one entry more for the number of rows.
#[derive(Debug)]
pub struct EdgePartition {
    pub rows: Vec<(i64, i64)>,
    pub offsets: Vec<u64>,
}

/// What a partition of edges is, as a mathematical value.
pub struct EdgePartitionView {
    pub rows: Seq<(i64, i64)>,
    pub offsets: Seq<u64>,
}

impl View for EdgePartition {
    type V = EdgePartitionView;

    open spec fn view(&self) -> EdgePartitionView {
        EdgePartitionView { rows: self.rows@, offsets: self.offsets@ }
    }
}

impl DeepView for EdgePartition {
    type V = EdgePartitionView;

    open spec fn deep_view(&self) -> EdgePartitionView {
        self@
    }
}

/// The chunks of one edge type under one adjacency kind: the partitions, one
/// per vertex chunk of the pivot side, and for each property group its
/// chunks, which hold the rows of all partitions one after the other.
#[derive(Debug)]
pub struct EdgeChunks {
    pub partitions: Vec<EdgePartition>,
    pub groups: Vec<Vec<Chunk>>,
}

/// What the chunks of an edge type are, as a mathematical value.
pub struct EdgeChunksView {
    pub partitions: Seq<EdgePartitionView>,
    pub groups: Seq<Seq<ChunkView>>,
}

impl View for EdgeChunks {
    type V = EdgeChunksView;

    open spec fn view(&self) -> EdgeChunksView {
        EdgeChunksView { partitions: self.partitions.deep_view(), groups: self.groups.deep_view() }
    }
}

impl DeepView for EdgeChunks {
    type V = EdgeChunksView;

    open spec fn deep_view(&self) -> EdgeChunksView {
        self@
    }
}


/// What an access to the property `name` of the row `id` gives, where the
/// chunks of every group hold `size` rows and the first of them has the
/// index `first_chunk`.
///
/// The property is looked up in the schema: the first group that has it, and
/// its column there; without such a group the access fails with
/// `MissingPropertyError`. A negative id fails with `OutOfRangeError`. The
/// chunk is `id / size` and the row `id % size`; a chunk or a column that is
/// not there fails with `IOError`, a row beyond the chunk's rows with
/// `OutOfRangeError`. Else the access gives the cell, which is `None` where
/// the row has no value.
pub open spec fn stored_cell(
    groups: Seq<PropertyGroupView>,
    size: int,
    first_chunk: nat,
    chunks: Seq<Seq<ChunkView>>,
    id: int,
    name: Seq<char>,
) -> Result<Option<ValueView>, GraphError> {
    let g = group_index(groups, name, 0);
    if g >= groups.len() {
        Err(GraphError::MissingPropertyError)
    } else if id < 0 {
        Err(GraphError::OutOfRangeError)
    } else {
        let c = property_index(groups[g].properties, name, 0);
        let j = id / size - first_chunk;
        let row = id % size;
        if g >= chunks.len() || j < 0 || j >= chunks[g].len() {
            Err(GraphError::IOError)
        } else if c >= chunks[g][j].len() {
            Err(GraphError::IOError)
        } else if row >= chunks[g][j][c].len() {
            Err(GraphError::OutOfRangeError)
        } else {
            Ok(chunks[g][j][c][row])
        }
    }
}

/// The mathematical value of what an access to a cell gave.
pub open spec fn cell_view(cell: Result<Option<&Value>, GraphError>) -> Result<
    Option<ValueView>,
    GraphError,
> {
    match cell {
        Ok(Some(v)) => Ok(Some(v@)),
        Ok(None) => Ok(None),
        Err(e) => Err(e),
    }
}

/// Reads the cell of the property `name` of the row `id`: see
/// `stored_cell`.
pub(crate) fn read_stored_cell<'a>(
    groups: &Vec<PropertyGroup>,
    size: u64,
    first_chunk: u64,
    chunks: &'a Vec<Vec<Chunk>>,
    id: i64,
    name: &str,
) -> (r: Result<Option<&'a Value>, GraphError>)
    requires
        size > 0,
    ensures
        cell_view(r) == stored_cell(
            groups.deep_view(),
            size as int,
            first_chunk as nat,
            chunks.deep_view(),
            id as int,
            name@,
        ),
{
    let g = find_group(groups, name);
    if g >= groups.len() {
        return Err(GraphError::MissingPropertyError);
    }
    if id < 0 {
        return Err(GraphError::OutOfRangeError);
    }
    let c = find_property(groups[g].properties_ref(), name);
    let chunk: u64 = id as u64 / size;
    let row: u64 = id as u64 % size;
    if g >= chunks.len() || chunk < first_chunk {
        return Err(GraphError::IOError);
    }
    let j: u64 = chunk - first_chunk;
    let group = &chunks[g];
    if j >= group.len() as u64 {
        return Err(GraphError::IOError);
    }
    let columns = &group[j as usize].columns;
    if c >= columns.len() {
        return Err(GraphError::IOError);
    }
    let column = &columns[c];
    if row >= column.len() as u64 {
        return Err(GraphError::OutOfRangeError);
    }
    let r = match &column[row as usize] {
        Some(v) => Some(v),
        None => None,
    };
    Ok(r)
}


/// A list of chunks, made `n` long with chunks that hold nothing where it
/// is shorter.
pub open spec fn padded(chunks: Seq<ChunkView>, n: int) -> Seq<ChunkView> {
    if chunks.len() >= n {
        chunks
    } else {
        chunks + Seq::new((n - chunks.len()) as nat, |i: int| Seq::<Seq<Option<ValueView>>>::empty())
    }
}

/// The chunks of all groups after the chunk `j` of the group `g` was put in
/// its place. Where there was no such group or no such chunk yet, groups
/// without chunks and chunks that hold nothing fill the gap.
pub open spec fn supplied(chunks: Seq<Seq<ChunkView>>, g: int, j: int, data: ChunkView) -> Seq<
    Seq<ChunkView>,
> {
    let wide = if chunks.len() > g {
        chunks
    } else {
        chunks + Seq::new((g + 1 - chunks.len()) as nat, |i: int| Seq::<ChunkView>::empty())
    };
    wide.update(g, padded(wide[g], j + 1).update(j, data))
}

/// Whether the chunk `j` of the group `g` is there and holds columns.
pub open spec fn chunk_present(chunks: Seq<Seq<ChunkView>>, g: int, j: int) -> bool {
    0 <= g < chunks.len() && 0 <= j < chunks[g].len() && chunks[g][j].len() > 0
}

/// A chunk that was put in its place is there, and the chunks that were
/// there before stay.
pub proof fn lemma_supplied(chunks: Seq<Seq<ChunkView>>, g: int, j: int, data: ChunkView)
    requires
        0 <= g,
        0 <= j,
    ensures
        g < supplied(chunks, g, j, data).len(),
        j < supplied(chunks, g, j, data)[g].len(),
        supplied(chunks, g, j, data)[g][j] == data,
        forall|h: int, i: int|
            0 <= h < chunks.len() && 0 <= i < chunks[h].len() && (h != g || i != j) ==> h
                < supplied(chunks, g, j, data).len() && i < supplied(chunks, g, j, data)[h].len()
                && #[trigger] supplied(chunks, g, j, data)[h][i] == chunks[h][i],
{
}

/// Puts the chunk `j` of the group `g` in its place: see `supplied`.
pub(crate) fn supply_chunk(chunks: &mut Vec<Vec<Chunk>>, g: usize, j: usize, data: Chunk)
    requires
        g < usize::MAX,
        j < usize::MAX,
    ensures
        final(chunks).deep_view() == supplied(old(chunks).deep_view(), g as int, j as int, data@),
{
    let ghost before = chunks.deep_view();
    while chunks.len() <= g
        invariant
            g < usize::MAX,
            before.len() <= chunks@.len(),
            chunks@.len() <= g + 1 || chunks@.len() == before.len(),
            forall|h: int| 0 <= h < before.len() ==> (#[trigger] chunks@[h]).deep_view() == before[h],
            forall|h: int| before.len() <= h < chunks@.len() ==> (#[trigger] chunks@[h])@.len() == 0,
        decreases g + 1 - chunks@.len(),
    {
        chunks.push(Vec::new());
    }
    let ghost wide = chunks.deep_view();
    let ghost row = wide[g as int];
    while chunks[g].len() <= j
        invariant
            j < usize::MAX,
            g < chunks@.len() == wide.len(),
            forall|h: int| 0 <= h < wide.len() && h != g ==> (#[trigger] chunks@[h]).deep_view() == wide[h],
            row.len() <= chunks@[g as int]@.len(),
            chunks@[g as int]@.len() <= j + 1 || chunks@[g as int]@.len() == row.len(),
            forall|i: int| 0 <= i < row.len() ==> (#[trigger] chunks@[g as int]@[i])@ == row[i],
            forall|i: int|
                row.len() <= i < chunks@[g as int]@.len() ==> (#[trigger] chunks@[g as int]@[i])@.len()
                    == 0,
        decreases j + 1 - chunks@[g as int]@.len(),
    {
        chunks[g].push(Chunk { columns: Vec::new() });
    }
    chunks[g][j] = data;
    proof {
        let target = supplied(before, g as int, j as int, data@);
        let now = chunks.deep_view();
        assert(now.len() == target.len());
        assert forall|h: int| 0 <= h < target.len() implies now[h] =~= target[h] by {
            if h == g {
                assert(now[h].len() == target[h].len());
                assert forall|i: int| 0 <= i < target[h].len() implies now[h][i] =~= target[h][i] by {
                    if i != j {
                        if i < row.len() {
                            assert(chunks@[g as int]@[i]@ == row[i]);
                        } else {
                            assert(chunks@[g as int]@[i]@.len() == 0);
                        }
                    }
                }
            } else if h < before.len() {
                assert(chunks@[h].deep_view() == before[h]);
            } else {
                assert(chunks@[h]@.len() == 0);
            }
        }
        assert(now =~= target);
    }
}

/// Whether the chunk `j` of the group `g` is there and holds columns.
pub(crate) fn has_chunk(chunks: &Vec<Vec<Chunk>>, g: usize, j: usize) -> (r: bool)
    ensures
        r == chunk_present(chunks.deep_view(), g as int, j as int),
{
    g < chunks.len() && j < chunks[g].len() && chunks[g][j].columns.len() > 0
}

/// Where the chunk of the row `id` is stored as a dump of `records` makes
/// it, with the index `first_chunk` for the first chunk of the dump, the row
/// is found with exactly the cells of its record: for every declared
/// property, the value that the record has, and `None` where it has none.
/// Nothing is asked of the other chunks.
pub proof fn lemma_stored_cell_in_chunk(
    groups: Seq<PropertyGroupView>,
    size: int,
    records: Seq<RecordView>,
    first_chunk: int,
    chunks: Seq<Seq<ChunkView>>,
    id: int,
    name: Seq<char>,
)
    requires
        0 < size,
        0 <= first_chunk,
        first_chunk * size <= id < first_chunk * size + records.len(),
        group_index(groups, name, 0) < groups.len(),
        group_index(groups, name, 0) < chunks.len(),
        id / size - first_chunk < chunks[group_index(groups, name, 0)].len(),
        chunks[group_index(groups, name, 0)][id / size - first_chunk] == all_chunks(
            records,
            groups,
            size,
        )[group_index(groups, name, 0)][id / size - first_chunk],
    ensures
        stored_cell(groups, size, first_chunk as nat, chunks, id, name) == Ok::<
            Option<ValueView>,
            GraphError,
        >(cell_of(records[id - first_chunk * size], name)),
        0 <= id / size - first_chunk < chunk_count(records.len() as int, size),
{
    let total = records.len() as int;
    let k = id - first_chunk * size;
    let kq = k / size;
    let kr = k % size;
    vstd::arithmetic::div_mod::lemma_fundamental_div_mod(k, size);
    vstd::arithmetic::div_mod::lemma_fundamental_div_mod(total, size);
    vstd::arithmetic::div_mod::lemma_mod_bound(k, size);
    vstd::arithmetic::div_mod::lemma_mod_bound(total, size);
    vstd::arithmetic::div_mod::lemma_div_is_ordered(k, total, size);
    vstd::arithmetic::div_mod::lemma_div_pos_is_pos(k, size);
    assert(id == (first_chunk + kq) * size + kr) by (nonlinear_arith)
        requires
            id == first_chunk * size + k,
            k == size * kq + kr,
    ;
    assert(0 <= first_chunk * size) by (nonlinear_arith)
        requires
            0 <= first_chunk,
            0 < size,
    ;
    vstd::arithmetic::div_mod::lemma_fundamental_div_mod_converse(id, size, first_chunk + kq, kr);
    assert(kq * size + kr == k) by (nonlinear_arith)
        requires
            k == size * kq + kr,
    ;
    if kq == total / size {
        assert(size * kq + kr < size * kq + total % size);
    }
    assert(kq < chunk_count(total, size));
    assert(kr < chunk_rows(total, size, kq));
    let g = group_index(groups, name, 0);
    lemma_group_index(groups, name, 0);
    let props = groups[g].properties;
    lemma_property_index(props, name, 0);
    let c = property_index(props, name, 0);
    assert(c < props.len());
    let dumped = all_chunks(records, groups, size);
    assert(dumped[g] == group_chunks(records, props, size));
    assert(dumped[g][kq] == chunk_cells(records, props, kq * size, chunk_rows(total, size, kq)));
    assert(chunks[g][kq][c] == column_cells(
        records,
        props[c].name,
        kq * size,
        chunk_rows(total, size, kq),
    ));
    assert(chunks[g][kq][c][kr] == cell_of(records[kq * size + kr], name));
}

/// The chunk of a row of a stored range is one of the chunks of the range.
pub proof fn lemma_chunk_of_row(size: int, total: int, first_chunk: int, id: int)
    requires
        0 < size,
        0 <= first_chunk,
        first_chunk * size <= id < first_chunk * size + total,
    ensures
        0 <= id / size - first_chunk < chunk_count(total, size),
{
    let k = id - first_chunk * size;
    vstd::arithmetic::div_mod::lemma_fundamental_div_mod(k, size);
    vstd::arithmetic::div_mod::lemma_fundamental_div_mod(total, size);
    vstd::arithmetic::div_mod::lemma_mod_bound(k, size);
    vstd::arithmetic::div_mod::lemma_mod_bound(total, size);
    vstd::arithmetic::div_mod::lemma_div_is_ordered(k, total, size);
    vstd::arithmetic::div_mod::lemma_div_pos_is_pos(k, size);
    assert(id == (first_chunk + k / size) * size + k % size) by (nonlinear_arith)
        requires
            id == first_chunk * size + k,
            k == size * (k / size) + k % size,
    ;
    vstd::arithmetic::div_mod::lemma_fundamental_div_mod_converse(
        id,
        size,
        first_chunk + k / size,
        k % size,
    );
    if k / size == total / size {
        assert(size * (k / size) + k % size < size * (k / size) + total % size);
    }
}

/// Where the chunks of `records` are stored with the index `first_chunk` for
/// the first of them, the row `id` of the stored range is found with exactly
/// the cells of its record: for every declared property, the value that the
/// record has, and `None` where it has none.
pub proof fn lemma_stored_cell(
    groups: Seq<PropertyGroupView>,
    size: int,
    records: Seq<RecordView>,
    first_chunk: int,
    id: int,
    name: Seq<char>,
)
    requires
        0 < size,
        0 <= first_chunk,
        first_chunk * size <= id < first_chunk * size + records.len(),
        group_index(groups, name, 0) < groups.len(),
    ensures
        stored_cell(groups, size, first_chunk as nat, all_chunks(records, groups, size), id, name)
            == Ok::<Option<ValueView>, GraphError>(cell_of(records[id - first_chunk * size], name)),
{
    lemma_chunk_of_row(size, records.len() as int, first_chunk, id);
    lemma_group_index(groups, name, 0);
    let g = group_index(groups, name, 0);
    assert(all_chunks(records, groups, size)[g] == group_chunks(
        records,
        groups[g].properties,
        size,
    ));
    lemma_stored_cell_in_chunk(
        groups,
        size,
        records,
        first_chunk,
        all_chunks(records, groups, size),
        id,
        name,
    );
}

} // verus!
