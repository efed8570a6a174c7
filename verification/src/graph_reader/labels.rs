//! Reading the labels of vertices: the label chunks of a vertex type hold
//! one boolean column per label of the type.

use crate::chunk::{Chunk, ChunkView};
use crate::error::GraphError;
use crate::text::str_eq;
use crate::value::{Value, ValueView};
use vstd::prelude::*;
use vstd::string::*;

verus! {

/// The index of the first label at or after `from` that is `label`; the
/// number of labels if there is none.
pub open spec fn label_index(labels: Seq<Seq<char>>, label: Seq<char>, from: int) -> int
    decreases labels.len() - from,
{
    if from < 0 || from >= labels.len() {
        labels.len() as int
    } else if labels[from] == label {
        from
    } else {
        label_index(labels, label, from + 1)
    }
}

/// What a label cell says: a boolean is itself, an empty cell is `false`,
/// and any other value is a `TypeMismatchError`.
pub open spec fn label_value(cell: Option<ValueView>) -> Result<bool, GraphError> {
    match cell {
        None => Ok(false),
        Some(ValueView::Bool(b)) => Ok(b),
        Some(_) => Err(GraphError::TypeMismatchError),
    }
}

/// Whether the vertex `id` has the label `label`, as the label chunks say.
///
/// A label that the type does not have fails with `MissingPropertyError`,
/// a negative id with `OutOfRangeError`. The chunk is `id / size` and the row
/// `id % size`; a chunk or a column that is not there fails with `IOError`,
/// a row beyond the chunk's rows with `OutOfRangeError`. Else the cell
/// decides: see `label_value`.
pub open spec fn label_cell(
    labels: Seq<Seq<char>>,
    size: int,
    first_chunk: nat,
    chunks: Seq<ChunkView>,
    id: int,
    label: Seq<char>,
) -> Result<bool, GraphError> {
    let c = label_index(labels, label, 0);
    if c >= labels.len() {
        Err(GraphError::MissingPropertyError)
    } else if id < 0 {
        Err(GraphError::OutOfRangeError)
    } else {
        let j = id / size - first_chunk;
        let row = id % size;
        if j < 0 || j >= chunks.len() {
            Err(GraphError::IOError)
        } else if c >= chunks[j].len() {
            Err(GraphError::IOError)
        } else if row >= chunks[j][c].len() {
            Err(GraphError::OutOfRangeError)
        } else {
            label_value(chunks[j][c][row])
        }
    }
}

/// The labels among the first `n` of the type that the vertex `id` has, in
/// the order of the type; the first error of an access, if one fails.
pub open spec fn labels_upto(
    labels: Seq<Seq<char>>,
    size: int,
    first_chunk: nat,
    chunks: Seq<ChunkView>,
    id: int,
    n: int,
) -> Result<Seq<Seq<char>>, GraphError>
    decreases n,
{
    if n <= 0 {
        Ok(Seq::empty())
    } else {
        match labels_upto(labels, size, first_chunk, chunks, id, n - 1) {
            Err(e) => Err(e),
            Ok(found) => match label_cell(labels, size, first_chunk, chunks, id, labels[n - 1]) {
                Err(e) => Err(e),
                Ok(true) => Ok(found.push(labels[n - 1])),
                Ok(false) => Ok(found),
            },
        }
    }
}

/// The ids below `n` of the vertices that have the label, ascending; the
/// first error of an access, if one fails.
pub open spec fn labelled_upto(
    labels: Seq<Seq<char>>,
    size: int,
    first_chunk: nat,
    chunks: Seq<ChunkView>,
    label: Seq<char>,
    n: int,
) -> Result<Seq<i64>, GraphError>
    decreases n,
{
    if n <= 0 {
        Ok(Seq::empty())
    } else {
        match labelled_upto(labels, size, first_chunk, chunks, label, n - 1) {
            Err(e) => Err(e),
            Ok(found) => match label_cell(labels, size, first_chunk, chunks, n - 1, label) {
                Err(e) => Err(e),
                Ok(true) => Ok(found.push((n - 1) as i64)),
                Ok(false) => Ok(found),
            },
        }
    }
}

/// The ids ascend.
pub open spec fn ascending(ids: Seq<i64>) -> bool {
    forall|i: int, j: int| 0 <= i < j < ids.len() ==> ids[i] < ids[j]
}

/// The ids of the vertices that were selected, ascending.
#[derive(Debug)]
pub struct Selection {
    ids: Vec<i64>,
}

impl View for Selection {
    type V = Seq<i64>;

    closed spec fn view(&self) -> Seq<i64> {
        self.ids@
    }
}

impl Selection {
    #[verifier::type_invariant]
    spec fn valid(&self) -> bool {
        ascending(self.ids@)
    }

    pub(crate) fn new(ids: Vec<i64>) -> (r: Self)
        requires
            ascending(ids@),
        ensures
            r@ == ids@,
    {
        Selection { ids }
    }

    /// The ids, ascending.
    pub fn ids(&self) -> (r: &Vec<i64>)
        ensures
            r@ == self@,
            ascending(self@),
    {
        proof {
            use_type_invariant(self);
        }
        &self.ids
    }
}

/// The index of the first id at or after `from` that is greater than `id`;
/// the number of ids if there is none.
pub open spec fn first_greater(ids: Seq<i64>, id: int, from: int) -> int
    decreases ids.len() - from,
{
    if from < 0 || from >= ids.len() {
        ids.len() as int
    } else if ids[from] > id {
        from
    } else {
        first_greater(ids, id, from + 1)
    }
}

/// `first_greater` gives the first id at or after `from` that is greater,
/// and the number of ids exactly when none from there on is.
pub proof fn lemma_first_greater(ids: Seq<i64>, id: int, from: int)
    requires
        0 <= from <= ids.len(),
    ensures
        from <= first_greater(ids, id, from) <= ids.len(),
        first_greater(ids, id, from) < ids.len() ==> ids[first_greater(ids, id, from)] > id,
        forall|i: int| from <= i < first_greater(ids, id, from) ==> ids[i] <= id,
    decreases ids.len() - from,
{
    if from < ids.len() && ids[from] <= id {
        lemma_first_greater(ids, id, from + 1);
    }
}

/// The index of the first label that is `label`, or the number of labels.
pub(crate) fn find_label(labels: &Vec<String>, label: &str) -> (r: usize)
    ensures
        r == label_index(labels.deep_view(), label@, 0),
        r <= labels@.len(),
{
    let ghost views = labels.deep_view();
    let mut i: usize = 0;
    while i < labels.len()
        invariant
            0 <= i <= labels@.len(),
            views == labels.deep_view(),
            label_index(views, label@, 0) == label_index(views, label@, i as int),
        decreases labels@.len() - i,
    {
        if str_eq(labels[i].as_str(), label) {
            return i;
        }
        i += 1;
    }
    i
}

/// Whether the vertex `id` has the label `label`: see `label_cell`.
pub(crate) fn read_label(
    labels: &Vec<String>,
    size: u64,
    first_chunk: u64,
    chunks: &Vec<Chunk>,
    id: i64,
    label: &str,
) -> (r: Result<bool, GraphError>)
    requires
        size > 0,
    ensures
        r == label_cell(
            labels.deep_view(),
            size as int,
            first_chunk as nat,
            chunks.deep_view(),
            id as int,
            label@,
        ),
{
    let c = find_label(labels, label);
    if c >= labels.len() {
        return Err(GraphError::MissingPropertyError);
    }
    if id < 0 {
        return Err(GraphError::OutOfRangeError);
    }
    let chunk: u64 = id as u64 / size;
    let row: u64 = id as u64 % size;
    if chunk < first_chunk {
        return Err(GraphError::IOError);
    }
    let j: u64 = chunk - first_chunk;
    if j >= chunks.len() as u64 {
        return Err(GraphError::IOError);
    }
    let columns = &chunks[j as usize].columns;
    if c >= columns.len() {
        return Err(GraphError::IOError);
    }
    let column = &columns[c];
    if row >= column.len() as u64 {
        return Err(GraphError::OutOfRangeError);
    }
    match &column[row as usize] {
        None => Ok(false),
        Some(Value::Bool(b)) => Ok(*b),
        Some(_) => Err(GraphError::TypeMismatchError),
    }
}

/// The labels of the type that the vertex `id` has, in the order of the
/// type: see `labels_upto`.
pub(crate) fn read_labels(
    labels: &Vec<String>,
    size: u64,
    first_chunk: u64,
    chunks: &Vec<Chunk>,
    id: i64,
) -> (r: Result<Vec<String>, GraphError>)
    requires
        size > 0,
    ensures
        match r {
            Ok(found) => labels_upto(
                labels.deep_view(),
                size as int,
                first_chunk as nat,
                chunks.deep_view(),
                id as int,
                labels@.len() as int,
            ) == Ok::<Seq<Seq<char>>, GraphError>(found.deep_view()),
            Err(e) => labels_upto(
                labels.deep_view(),
                size as int,
                first_chunk as nat,
                chunks.deep_view(),
                id as int,
                labels@.len() as int,
            ) == Err::<Seq<Seq<char>>, GraphError>(e),
        },
{
    let ghost all = labels.deep_view();
    let ghost cs = chunks.deep_view();
    let mut found: Vec<String> = Vec::new();
    let mut n: usize = 0;
    assert(found.deep_view() =~= Seq::<Seq<char>>::empty());
    while n < labels.len()
        invariant
            0 <= n <= labels@.len(),
            size > 0,
            all == labels.deep_view(),
            cs == chunks.deep_view(),
            labels_upto(all, size as int, first_chunk as nat, cs, id as int, n as int) == Ok::<
                Seq<Seq<char>>,
                GraphError,
            >(found.deep_view()),
        decreases labels@.len() - n,
    {
        let ghost before = found.deep_view();
        match read_label(labels, size, first_chunk, chunks, id, labels[n].as_str()) {
            Err(e) => {
                proof {
                    lemma_labels_error(
                        all,
                        size as int,
                        first_chunk as nat,
                        cs,
                        id as int,
                        n + 1,
                        labels@.len() as int,
                    );
                }
                return Err(e);
            },
            Ok(true) => {
                found.push(labels[n].clone());
                assert(found.deep_view() =~= before.push(all[n as int]));
            },
            Ok(false) => {},
        }
        n += 1;
    }
    Ok(found)
}

/// An access that fails among the first labels fails the whole reading.
pub proof fn lemma_labels_error(
    labels: Seq<Seq<char>>,
    size: int,
    first_chunk: nat,
    chunks: Seq<ChunkView>,
    id: int,
    n: int,
    m: int,
)
    requires
        0 <= n <= m,
        labels_upto(labels, size, first_chunk, chunks, id, n) is Err,
    ensures
        labels_upto(labels, size, first_chunk, chunks, id, m) == labels_upto(
            labels,
            size,
            first_chunk,
            chunks,
            id,
            n,
        ),
    decreases m - n,
{
    if m > n {
        lemma_labels_error(labels, size, first_chunk, chunks, id, n, m - 1);
    }
}

/// An access that fails among the first vertices fails the whole selection.
pub proof fn lemma_labelled_error(
    labels: Seq<Seq<char>>,
    size: int,
    first_chunk: nat,
    chunks: Seq<ChunkView>,
    label: Seq<char>,
    n: int,
    m: int,
)
    requires
        0 <= n <= m,
        labelled_upto(labels, size, first_chunk, chunks, label, n) is Err,
    ensures
        labelled_upto(labels, size, first_chunk, chunks, label, m) == labelled_upto(
            labels,
            size,
            first_chunk,
            chunks,
            label,
            n,
        ),
    decreases m - n,
{
    if m > n {
        lemma_labelled_error(labels, size, first_chunk, chunks, label, n, m - 1);
    }
}

/// The ids below `count` of the vertices that have the label, ascending: see
/// `labelled_upto`.
pub(crate) fn select_labelled(
    labels: &Vec<String>,
    size: u64,
    first_chunk: u64,
    chunks: &Vec<Chunk>,
    label: &str,
    count: u64,
) -> (r: Result<Vec<i64>, GraphError>)
    requires
        size > 0,
        count <= i64::MAX,
    ensures
        match r {
            Ok(found) => labelled_upto(
                labels.deep_view(),
                size as int,
                first_chunk as nat,
                chunks.deep_view(),
                label@,
                count as int,
            ) == Ok::<Seq<i64>, GraphError>(found@) && ascending(found@),
            Err(e) => labelled_upto(
                labels.deep_view(),
                size as int,
                first_chunk as nat,
                chunks.deep_view(),
                label@,
                count as int,
            ) == Err::<Seq<i64>, GraphError>(e),
        },
{
    let ghost all = labels.deep_view();
    let ghost cs = chunks.deep_view();
    let mut found: Vec<i64> = Vec::new();
    let mut n: u64 = 0;
    while n < count
        invariant
            0 <= n <= count <= i64::MAX,
            size > 0,
            all == labels.deep_view(),
            cs == chunks.deep_view(),
            labelled_upto(all, size as int, first_chunk as nat, cs, label@, n as int) == Ok::<
                Seq<i64>,
                GraphError,
            >(found@),
            ascending(found@),
            forall|i: int| 0 <= i < found@.len() ==> found@[i] < n,
        decreases count - n,
    {
        match read_label(labels, size, first_chunk, chunks, n as i64, label) {
            Err(e) => {
                proof {
                    lemma_labelled_error(
                        all,
                        size as int,
                        first_chunk as nat,
                        cs,
                        label@,
                        n + 1,
                        count as int,
                    );
                }
                return Err(e);
            },
            Ok(true) => {
                found.push(n as i64);
            },
            Ok(false) => {},
        }
        n += 1;
    }
    Ok(found)
}

/// The index of the first of the ascending ids that is greater than `id`,
/// or the number of ids, found by halving.
pub(crate) fn search_greater(ids: &Vec<i64>, id: i64) -> (r: usize)
    requires
        ascending(ids@),
    ensures
        r == first_greater(ids@, id as int, 0),
        r <= ids@.len(),
{
    let mut lo: usize = 0;
    let mut hi: usize = ids.len();
    while lo < hi
        invariant
            0 <= lo <= hi <= ids@.len(),
            ascending(ids@),
            forall|i: int| 0 <= i < lo ==> ids@[i] <= id,
            forall|i: int| hi <= i < ids@.len() ==> ids@[i] > id,
        decreases hi - lo,
    {
        let mid = lo + (hi - lo) / 2;
        if ids[mid] <= id {
            lo = mid + 1;
        } else {
            hi = mid;
        }
    }
    proof {
        lemma_first_greater(ids@, id as int, 0);
        let r = first_greater(ids@, id as int, 0);
        if r < lo {
            assert(ids@[r] <= id);
        }
        if r > lo {
            assert(ids@[lo as int] > id);
        }
    }
    lo
}

} // verus!
