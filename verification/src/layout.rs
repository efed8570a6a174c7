//! Where the files of a graph lie, relative to the directory of a vertex
//! type or of an edge type:
//!
//! ```text
//! <vertex_type>/vertex_count
//! <vertex_type>/<property_group_prefix>/chunk_<i>.<ext>
//! <src>_<edge>_<dst>/<adj_kind>/adj_list/part_<k>/chunk_<j>.<ext>
//! <src>_<edge>_<dst>/<adj_kind>/offset/part_<k>/chunk_<j>.<ext>
//! <src>_<edge>_<dst>/<property_group_prefix>/chunk_<j>.<ext>
//! ```
//!
//! and how the rows of an adjacency partition are cut into chunk files.

use crate::chunk::{chunk_count, chunk_rows, lemma_chunk_bounds};
use crate::graph_info::edge_info::{adj_list_name, AdjacentList, AdjacentListView};
use crate::graph_info::property::{extension_of, PropertyGroup, PropertyGroupView};
use crate::text::{chunk_file_name, chunk_path, chunk_path_text, decimal, push_decimal};
use vstd::prelude::*;
use vstd::string::*;

verus! {

/// The name of the directory of an edge type: `<src>_<edge>_<dst>`.
pub open spec fn edge_dir_text(src: Seq<char>, edge: Seq<char>, dst: Seq<char>) -> Seq<char> {
    src + "_"@ + edge + "_"@ + dst
}

/// The name of the directory of an edge type.
pub fn edge_dir(src_type: &str, edge_type: &str, dst_type: &str) -> (r: String)
    ensures
        r@ == edge_dir_text(src_type@, edge_type@, dst_type@),
{
    let mut out = src_type.to_owned();
    out.append("_");
    out.append(edge_type);
    out.append("_");
    out.append(dst_type);
    out
}

/// The path of the file that holds the number of vertices:
/// `root/vertex_count`.
pub open spec fn vertex_count_path_text(root: Seq<char>) -> Seq<char> {
    root + "/vertex_count"@
}

/// The path of the file that holds the number of vertices.
pub fn vertex_count_path(root: &str) -> (r: String)
    ensures
        r@ == vertex_count_path_text(root@),
{
    let mut out = root.to_owned();
    out.append("/vertex_count");
    out
}

/// The path of the chunk `index` of a property group:
/// `root/<group prefix>/chunk_<index>.<ext>`.
pub open spec fn property_chunk_path_text(root: Seq<char>, group: PropertyGroupView, index: nat) -> Seq<
    char,
> {
    chunk_path_text(root, group.prefix, index, extension_of(group.file_type))
}

/// The path of the chunk `index` of a property group, of a vertex type or of
/// an edge type, under the directory `root` of the type.
pub fn property_chunk_path(root: &str, group: &PropertyGroup, index: u64) -> (r: String)
    ensures
        r@ == property_chunk_path_text(root@, group@, index as nat),
{
    chunk_path(root, group.prefix_str(), index, group.file_type().extension())
}

/// The path of a chunk of an adjacency list or of its offset table:
/// `root/<adj_kind>/<what>/part_<part>/chunk_<index>.<ext>`.
pub open spec fn adjacency_path_text(
    root: Seq<char>,
    list: AdjacentListView,
    what: Seq<char>,
    part: nat,
    index: nat,
) -> Seq<char> {
    root + "/"@ + adj_list_name(list.kind) + "/"@ + what + "/part_"@ + decimal(part) + "/"@
        + chunk_file_name(index, extension_of(list.file_type))
}

fn adjacency_path(root: &str, list: &AdjacentList, what: &str, part: u64, index: u64) -> (r: String)
    ensures
        r@ == adjacency_path_text(root@, list@, what@, part as nat, index as nat),
{
    let mut out = root.to_owned();
    out.append("/");
    out.append(list.list_type().name());
    out.append("/");
    out.append(what);
    out.append("/part_");
    push_decimal(&mut out, part);
    out.append("/");
    out.append("chunk_");
    push_decimal(&mut out, index);
    out.append(".");
    out.append(list.file_type().extension());
    assert(out@ =~= adjacency_path_text(root@, list@, what@, part as nat, index as nat));
    out
}

/// The path of the chunk `index` of the partition `part` of an adjacency
/// list, under the directory `root` of the edge type.
pub fn adj_list_chunk_path(root: &str, list: &AdjacentList, part: u64, index: u64) -> (r: String)
    ensures
        r@ == adjacency_path_text(root@, list@, "adj_list"@, part as nat, index as nat),
{
    adjacency_path(root, list, "adj_list", part, index)
}

/// The path of the chunk `index` of the offset table of the partition
/// `part`, under the directory `root` of the edge type.
pub fn offset_chunk_path(root: &str, list: &AdjacentList, part: u64, index: u64) -> (r: String)
    ensures
        r@ == adjacency_path_text(root@, list@, "offset"@, part as nat, index as nat),
{
    adjacency_path(root, list, "offset", part, index)
}

/// The rows of the chunk `j` when rows are cut every `size` rows; no rows
/// for a chunk that is not there.
pub open spec fn rows_of_chunk<T>(rows: Seq<T>, size: int, j: int) -> Seq<T> {
    if 0 <= j < chunk_count(rows.len() as int, size) {
        rows.subrange(j * size, j * size + chunk_rows(rows.len() as int, size, j))
    } else {
        Seq::empty()
    }
}

/// How many chunk files the rows of an adjacency partition fill when a
/// chunk holds `size` rows.
pub fn adjacency_chunk_count(rows: &Vec<(i64, i64)>, size: u64) -> (r: u64)
    requires
        size > 0,
    ensures
        r == chunk_count(rows@.len() as int, size as int),
{
    let total = rows.len() as u64;
    proof {
        vstd::arithmetic::div_mod::lemma_fundamental_div_mod(total as int, size as int);
        assert(size * (total / size) >= total / size) by (nonlinear_arith)
            requires
                size > 0,
                total / size >= 0,
        ;
    }
    if total % size == 0 {
        total / size
    } else {
        total / size + 1
    }
}

/// The rows of the chunk file `j` of an adjacency partition: the rows from
/// `j * size` on, `size` of them or what is left.
pub fn adjacency_chunk(rows: &Vec<(i64, i64)>, size: u64, j: u64) -> (r: Vec<(i64, i64)>)
    requires
        size > 0,
    ensures
        r@ == rows_of_chunk(rows@, size as int, j as int),
{
    let count = adjacency_chunk_count(rows, size);
    let mut out: Vec<(i64, i64)> = Vec::new();
    if j >= count {
        return out;
    }
    proof {
        lemma_chunk_bounds(rows@.len() as int, size as int, j as int);
    }
    let total = rows.len() as u64;
    let start: u64 = j * size;
    let n: u64 = if j < total / size {
        size
    } else {
        total % size
    };
    let mut t: u64 = 0;
    while t < n
        invariant
            0 <= t <= n,
            start + n <= rows@.len(),
            rows@.len() == total,
            total <= usize::MAX,
            out@ == rows@.subrange(start as int, start + t),
        decreases n - t,
    {
        let index: usize = (start + t) as usize;
        let ghost before = out@;
        out.push(rows[index]);
        proof {
            let target = rows@.subrange(start as int, start + t + 1);
            assert(out@.len() == target.len());
            assert forall|s: int| 0 <= s < target.len() implies out@[s] == target[s] by {
                if s < t {
                    assert(before[s] == rows@.subrange(start as int, start + t)[s]);
                }
            }
            assert(out@ =~= target);
        }
        t += 1;
    }
    out
}

/// Cutting rows into chunks loses nothing: the row `i` is the row
/// `i % size` of the chunk `i / size`.
pub proof fn lemma_rows_of_chunk<T>(rows: Seq<T>, size: int, i: int)
    requires
        0 < size,
        0 <= i < rows.len(),
    ensures
        0 <= i / size < chunk_count(rows.len() as int, size),
        0 <= i % size < rows_of_chunk(rows, size, i / size).len(),
        rows_of_chunk(rows, size, i / size)[i % size] == rows[i],
{
    let total = rows.len() as int;
    let q = i / size;
    let r = i % size;
    vstd::arithmetic::div_mod::lemma_fundamental_div_mod(i, size);
    vstd::arithmetic::div_mod::lemma_fundamental_div_mod(total, size);
    vstd::arithmetic::div_mod::lemma_mod_bound(i, size);
    vstd::arithmetic::div_mod::lemma_mod_bound(total, size);
    vstd::arithmetic::div_mod::lemma_div_is_ordered(i, total, size);
    vstd::arithmetic::div_mod::lemma_div_pos_is_pos(i, size);
    if q == total / size {
        assert(size * q + r < size * q + total % size);
    }
    lemma_chunk_bounds(total, size, q);
    assert(q * size + r == i) by (nonlinear_arith)
        requires
            i == size * q + r,
    ;
}

} // verus!
