//! Adjacency lists and the description of one edge type.

use crate::error::GraphError;
use crate::graph_info::property::{
    clone_groups, find_group, group_index, groups_wf, FileType, PropertyGroup, PropertyGroupVector,
    PropertyGroupView,
};
use crate::graph_info::version::{supported_version, InfoVersion};
use vstd::prelude::*;
use vstd::string::*;

verus! {

/// How the edges of a type are laid out: sorted by the pivot endpoint or in
/// the order of insertion, with the source or the destination as pivot.
#[derive(Clone, Copy, Debug, PartialEq, Eq, Structural)]
pub enum AdjListType {
    UnorderedBySource,
    UnorderedByDest,
    OrderedBySource,
    OrderedByDest,
}

/// The directory name of an adjacency kind.
pub open spec fn adj_list_name(kind: AdjListType) -> Seq<char> {
    match kind {
        AdjListType::UnorderedBySource => "unordered_by_source"@,
        AdjListType::UnorderedByDest => "unordered_by_dest"@,
        AdjListType::OrderedBySource => "ordered_by_source"@,
        AdjListType::OrderedByDest => "ordered_by_dest"@,
    }
}

/// Whether an adjacency kind keeps its edges sorted by the pivot endpoint.
pub open spec fn kind_is_ordered(kind: AdjListType) -> bool {
    kind == AdjListType::OrderedBySource || kind == AdjListType::OrderedByDest
}

/// Whether the pivot endpoint of an adjacency kind is the source.
pub open spec fn kind_is_by_source(kind: AdjListType) -> bool {
    kind == AdjListType::UnorderedBySource || kind == AdjListType::OrderedBySource
}

impl AdjListType {
    /// The directory name of this kind.
    pub fn name(&self) -> (r: &'static str)
        ensures
            r@ == adj_list_name(*self),
    {
        match self {
            AdjListType::UnorderedBySource => "unordered_by_source",
            AdjListType::UnorderedByDest => "unordered_by_dest",
            AdjListType::OrderedBySource => "ordered_by_source",
            AdjListType::OrderedByDest => "ordered_by_dest",
        }
    }

    /// Whether edges are kept sorted by the pivot endpoint.
    pub fn is_ordered(&self) -> (r: bool)
        ensures
            r == kind_is_ordered(*self),
    {
        match self {
            AdjListType::OrderedBySource | AdjListType::OrderedByDest => true,
            _ => false,
        }
    }

    /// Whether the pivot endpoint is the source.
    pub fn is_by_source(&self) -> (r: bool)
        ensures
            r == kind_is_by_source(*self),
    {
        match self {
            AdjListType::UnorderedBySource | AdjListType::OrderedBySource => true,
            _ => false,
        }
    }
}

/// One way in which the edges of a type are stored.
#[derive(Debug)]
pub struct AdjacentList {
    kind: AdjListType,
    file_type: FileType,
    prefix: String,
}

/// What an adjacency list is, as a mathematical value.
pub struct AdjacentListView {
    pub kind: AdjListType,
    pub file_type: FileType,
    pub prefix: Seq<char>,
}

impl View for AdjacentList {
    type V = AdjacentListView;

    closed spec fn view(&self) -> AdjacentListView {
        AdjacentListView { kind: self.kind, file_type: self.file_type, prefix: self.prefix@ }
    }
}

impl DeepView for AdjacentList {
    type V = AdjacentListView;

    open spec fn deep_view(&self) -> AdjacentListView {
        self@
    }
}

impl Clone for AdjacentList {
    fn clone(&self) -> (r: Self)
        ensures
            r@ == self@,
    {
        AdjacentList { kind: self.kind, file_type: self.file_type, prefix: self.prefix.clone() }
    }
}

impl AdjacentList {
    /// An adjacency list of the kind `ty`, stored in the given format under the
    /// given prefix.
    pub fn new(ty: AdjListType, file_type: FileType, path_prefix: &str) -> (r: Self)
        ensures
            r@ == (AdjacentListView { kind: ty, file_type, prefix: path_prefix@ }),
    {
        AdjacentList { kind: ty, file_type, prefix: path_prefix.to_owned() }
    }

    /// The kind of the adjacency list.
    pub fn list_type(&self) -> (r: AdjListType)
        ensures
            r == self@.kind,
    {
        self.kind
    }

    /// The format of the files of the adjacency list.
    pub fn file_type(&self) -> (r: FileType)
        ensures
            r == self@.file_type,
    {
        self.file_type
    }

    /// The prefix under which the files of the adjacency list lie.
    pub fn prefix(&self) -> (r: String)
        ensures
            r@ == self@.prefix,
    {
        self.prefix.clone()
    }
}

/// A list of adjacency lists from which an edge type is made.
pub struct AdjacentListVector {
    items: Vec<AdjacentList>,
}

impl View for AdjacentListVector {
    type V = Seq<AdjacentListView>;

    closed spec fn view(&self) -> Seq<AdjacentListView> {
        self.items.deep_view()
    }
}

impl Default for AdjacentListVector {
    fn default() -> (r: Self)
        ensures
            r@ == Seq::<AdjacentListView>::empty(),
    {
        Self::new()
    }
}

impl AdjacentListVector {
    /// A list without adjacency lists.
    pub fn new() -> (r: Self)
        ensures
            r@ == Seq::<AdjacentListView>::empty(),
    {
        let r = AdjacentListVector { items: Vec::new() };
        assert(r@ =~= Seq::<AdjacentListView>::empty());
        r
    }

    /// The list of the given adjacency lists.
    pub fn from_lists(items: Vec<AdjacentList>) -> (r: Self)
        ensures
            r@ == items.deep_view(),
    {
        AdjacentListVector { items }
    }

    /// Appends an adjacency list.
    pub fn add_adjacent_list(&mut self, adj_list: AdjacentList)
        ensures
            final(self)@ == old(self)@.push(adj_list@),
    {
        self.items.push(adj_list);
        assert(self@ =~= old(self)@.push(adj_list@));
    }
}

/// No two adjacency lists have the same kind.
pub open spec fn kinds_distinct(lists: Seq<AdjacentListView>) -> bool {
    forall|i: int, j: int| 0 <= i < j < lists.len() ==> lists[i].kind != lists[j].kind
}

/// The index of the first adjacency list at or after `from` that has the
/// given kind; the length of the list if there is none.
pub open spec fn adjacent_index(lists: Seq<AdjacentListView>, kind: AdjListType, from: int) -> int
    decreases lists.len() - from,
{
    if from < 0 || from >= lists.len() {
        lists.len() as int
    } else if lists[from].kind == kind {
        from
    } else {
        adjacent_index(lists, kind, from + 1)
    }
}

/// Whether one of the adjacency lists has the given kind.
pub open spec fn has_kind(lists: Seq<AdjacentListView>, kind: AdjListType) -> bool {
    exists|i: int| 0 <= i < lists.len() && lists[i].kind == kind
}

/// `adjacent_index` gives the first list of the kind at or after `from`, and
/// the length exactly when no list from there on has the kind.
pub proof fn lemma_adjacent_index(lists: Seq<AdjacentListView>, kind: AdjListType, from: int)
    requires
        0 <= from <= lists.len(),
    ensures
        from <= adjacent_index(lists, kind, from) <= lists.len(),
        adjacent_index(lists, kind, from) < lists.len() ==> lists[adjacent_index(
            lists,
            kind,
            from,
        )].kind == kind,
        forall|i: int| from <= i < adjacent_index(lists, kind, from) ==> lists[i].kind != kind,
    decreases lists.len() - from,
{
    if from < lists.len() && lists[from].kind != kind {
        lemma_adjacent_index(lists, kind, from + 1);
    }
}

fn find_adjacent(lists: &Vec<AdjacentList>, kind: AdjListType) -> (r: usize)
    ensures
        r == adjacent_index(lists.deep_view(), kind, 0),
        r <= lists@.len(),
{
    let ghost views = lists.deep_view();
    let mut i: usize = 0;
    while i < lists.len()
        invariant
            0 <= i <= lists@.len(),
            views == lists.deep_view(),
            adjacent_index(views, kind, 0) == adjacent_index(views, kind, i as int),
        decreases lists@.len() - i,
    {
        if lists[i].kind == kind {
            return i;
        }
        i += 1;
    }
    i
}

fn kinds_are_distinct(lists: &Vec<AdjacentList>) -> (r: bool)
    ensures
        r == kinds_distinct(lists.deep_view()),
{
    let ghost views = lists.deep_view();
    let mut j: usize = 0;
    while j < lists.len()
        invariant
            0 <= j <= lists@.len(),
            views == lists.deep_view(),
            forall|a: int, b: int| 0 <= a < b < j ==> views[a].kind != views[b].kind,
        decreases lists@.len() - j,
    {
        let mut i: usize = 0;
        while i < j
            invariant
                0 <= i <= j < lists@.len(),
                views == lists.deep_view(),
                forall|a: int| 0 <= a < i ==> views[a].kind != views[j as int].kind,
            decreases j - i,
        {
            if lists[i].kind == lists[j].kind {
                assert(views[i as int].kind == views[j as int].kind);
                return false;
            }
            i += 1;
        }
        j += 1;
    }
    true
}

/// Copies a list of adjacency lists.
pub fn clone_lists(lists: &Vec<AdjacentList>) -> (r: Vec<AdjacentList>)
    ensures
        r.deep_view() == lists.deep_view(),
{
    let r = lists.clone();
    assert(r.deep_view() =~= lists.deep_view());
    r
}

/// An edge type: the types of its endpoints, its own name, how many edges
/// one chunk holds, how many vertices one adjacency partition spans on each
/// side, its adjacency lists and property groups, where its files lie, and
/// the version of the format.
#[derive(Debug)]
pub struct EdgeInfo {
    src_type: String,
    edge_type: String,
    dst_type: String,
    chunk_size: i64,
    src_chunk_size: i64,
    dst_chunk_size: i64,
    directed: bool,
    adjacent_lists: Vec<AdjacentList>,
    property_groups: Vec<PropertyGroup>,
    prefix: String,
    version: InfoVersion,
}

/// What an edge type is, as a mathematical value.
pub struct EdgeInfoView {
    pub src_type: Seq<char>,
    pub edge_type: Seq<char>,
    pub dst_type: Seq<char>,
    pub chunk_size: int,
    pub src_chunk_size: int,
    pub dst_chunk_size: int,
    pub directed: bool,
    pub adjacent_lists: Seq<AdjacentListView>,
    pub property_groups: Seq<PropertyGroupView>,
    pub prefix: Seq<char>,
    pub version: int,
}

impl EdgeInfoView {
    /// The three names are not empty, the three chunk sizes are positive,
    /// there is at least one adjacency list and no kind twice, the groups are
    /// well formed and their number fits the counters, and the version is
    /// supported.
    pub open spec fn wf(self) -> bool {
        &&& self.src_type.len() > 0
        &&& self.edge_type.len() > 0
        &&& self.dst_type.len() > 0
        &&& 0 < self.chunk_size <= i64::MAX
        &&& 0 < self.src_chunk_size <= i64::MAX
        &&& 0 < self.dst_chunk_size <= i64::MAX
        &&& self.adjacent_lists.len() > 0
        &&& kinds_distinct(self.adjacent_lists)
        &&& groups_wf(self.property_groups)
        &&& self.property_groups.len() <= i32::MAX
        &&& supported_version(self.version)
    }
}

impl View for EdgeInfo {
    type V = EdgeInfoView;

    closed spec fn view(&self) -> EdgeInfoView {
        EdgeInfoView {
            src_type: self.src_type@,
            edge_type: self.edge_type@,
            dst_type: self.dst_type@,
            chunk_size: self.chunk_size as int,
            src_chunk_size: self.src_chunk_size as int,
            dst_chunk_size: self.dst_chunk_size as int,
            directed: self.directed,
            adjacent_lists: self.adjacent_lists.deep_view(),
            property_groups: self.property_groups.deep_view(),
            prefix: self.prefix@,
            version: self.version@,
        }
    }
}

impl DeepView for EdgeInfo {
    type V = EdgeInfoView;

    open spec fn deep_view(&self) -> EdgeInfoView {
        self@
    }
}

impl Clone for EdgeInfo {
    fn clone(&self) -> (r: Self)
        ensures
            r@ == self@,
    {
        proof {
            use_type_invariant(self);
        }
        EdgeInfo {
            src_type: self.src_type.clone(),
            edge_type: self.edge_type.clone(),
            dst_type: self.dst_type.clone(),
            chunk_size: self.chunk_size,
            src_chunk_size: self.src_chunk_size,
            dst_chunk_size: self.dst_chunk_size,
            directed: self.directed,
            adjacent_lists: clone_lists(&self.adjacent_lists),
            property_groups: clone_groups(&self.property_groups),
            prefix: self.prefix.clone(),
            version: self.version,
        }
    }
}

/// What `EdgeInfo::new` accepts: three names that are not empty, three
/// positive chunk sizes, at least one adjacency list and no kind twice, and
/// no more groups than the counters can hold.
pub open spec fn edge_info_accepted(
    src_type: Seq<char>,
    edge_type: Seq<char>,
    dst_type: Seq<char>,
    chunk_size: int,
    src_chunk_size: int,
    dst_chunk_size: int,
    adjacent_lists: Seq<AdjacentListView>,
    groups: nat,
) -> bool {
    &&& src_type.len() > 0
    &&& edge_type.len() > 0
    &&& dst_type.len() > 0
    &&& chunk_size > 0
    &&& src_chunk_size > 0
    &&& dst_chunk_size > 0
    &&& adjacent_lists.len() > 0
    &&& kinds_distinct(adjacent_lists)
    &&& groups <= i32::MAX
}

impl EdgeInfo {
    #[verifier::type_invariant]
    spec fn valid(&self) -> bool {
        self@.wf()
    }

    /// Describes an edge type. Fails with `SchemaError` when a name is empty,
    /// a chunk size is not positive, there is no adjacency list, two
    /// adjacency lists have the same kind, or there are more groups than
    /// `i32::MAX`.
    pub fn new(
        src_type: &str,
        edge_type: &str,
        dst_type: &str,
        chunk_size: i64,
        src_chunk_size: i64,
        dst_chunk_size: i64,
        directed: bool,
        adjacent_lists: AdjacentListVector,
        property_groups: PropertyGroupVector,
        path_prefix: &str,
        version: InfoVersion,
    ) -> (r: Result<Self, GraphError>)
        ensures
            edge_info_accepted(
                src_type@,
                edge_type@,
                dst_type@,
                chunk_size as int,
                src_chunk_size as int,
                dst_chunk_size as int,
                adjacent_lists@,
                property_groups@.len(),
            ) ==> r is Ok && r->Ok_0@ == (EdgeInfoView {
                src_type: src_type@,
                edge_type: edge_type@,
                dst_type: dst_type@,
                chunk_size: chunk_size as int,
                src_chunk_size: src_chunk_size as int,
                dst_chunk_size: dst_chunk_size as int,
                directed,
                adjacent_lists: adjacent_lists@,
                property_groups: property_groups@,
                prefix: path_prefix@,
                version: version@,
            }) && r->Ok_0@.wf(),
            !edge_info_accepted(
                src_type@,
                edge_type@,
                dst_type@,
                chunk_size as int,
                src_chunk_size as int,
                dst_chunk_size as int,
                adjacent_lists@,
                property_groups@.len(),
            ) ==> r == Err::<Self, GraphError>(GraphError::SchemaError),
    {
        let groups = property_groups.into_vec();
        let lists = adjacent_lists.items;
        if src_type.is_empty() || edge_type.is_empty() || dst_type.is_empty() {
            return Err(GraphError::SchemaError);
        }
        if chunk_size <= 0 || src_chunk_size <= 0 || dst_chunk_size <= 0 {
            return Err(GraphError::SchemaError);
        }
        if lists.len() == 0 || !kinds_are_distinct(&lists) || groups.len() > i32::MAX as usize {
            return Err(GraphError::SchemaError);
        }
        let _ = version.version();
        Ok(
            EdgeInfo {
                src_type: src_type.to_owned(),
                edge_type: edge_type.to_owned(),
                dst_type: dst_type.to_owned(),
                chunk_size,
                src_chunk_size,
                dst_chunk_size,
                directed,
                adjacent_lists: lists,
                property_groups: groups,
                prefix: path_prefix.to_owned(),
                version,
            },
        )
    }

    /// The name of the source vertex type.
    pub fn src_type(&self) -> (r: String)
        ensures
            r@ == self@.src_type,
    {
        self.src_type.clone()
    }

    /// The name of the destination vertex type.
    pub fn dst_type(&self) -> (r: String)
        ensures
            r@ == self@.dst_type,
    {
        self.dst_type.clone()
    }

    /// The name of the edge type.
    pub fn edge_type(&self) -> (r: String)
        ensures
            r@ == self@.edge_type,
    {
        self.edge_type.clone()
    }

    /// The name of the source type, borrowed.
    pub fn src_type_str(&self) -> (r: &str)
        ensures
            r@ == self@.src_type,
    {
        self.src_type.as_str()
    }

    /// The name of the destination type, borrowed.
    pub fn dst_type_str(&self) -> (r: &str)
        ensures
            r@ == self@.dst_type,
    {
        self.dst_type.as_str()
    }

    /// The name of the edge type, borrowed.
    pub fn edge_type_str(&self) -> (r: &str)
        ensures
            r@ == self@.edge_type,
    {
        self.edge_type.as_str()
    }

    /// How many edges one chunk holds; always positive.
    pub fn chunk_size(&self) -> (r: i64)
        ensures
            r == self@.chunk_size,
            r > 0,
    {
        proof {
            use_type_invariant(self);
        }
        self.chunk_size
    }

    /// How many source vertices one partition spans; always positive.
    pub fn src_chunk_size(&self) -> (r: i64)
        ensures
            r == self@.src_chunk_size,
            r > 0,
    {
        proof {
            use_type_invariant(self);
        }
        self.src_chunk_size
    }

    /// How many destination vertices one partition spans; always positive.
    pub fn dst_chunk_size(&self) -> (r: i64)
        ensures
            r == self@.dst_chunk_size,
            r > 0,
    {
        proof {
            use_type_invariant(self);
        }
        self.dst_chunk_size
    }

    /// The prefix under which the files of the type lie.
    pub fn prefix(&self) -> (r: String)
        ensures
            r@ == self@.prefix,
    {
        self.prefix.clone()
    }

    /// Whether the edges are directed.
    pub fn is_directed(&self) -> (r: bool)
        ensures
            r == self@.directed,
    {
        self.directed
    }

    /// The version of the format.
    pub fn version(&self) -> (r: InfoVersion)
        ensures
            r@ == self@.version,
    {
        self.version
    }

    /// Whether the type has an adjacency list of the given kind.
    pub fn has_adjacent_list_type(&self, adj_list_type: AdjListType) -> (r: bool)
        ensures
            r == has_kind(self@.adjacent_lists, adj_list_type),
    {
        proof {
            lemma_adjacent_index(self@.adjacent_lists, adj_list_type, 0);
        }
        find_adjacent(&self.adjacent_lists, adj_list_type) < self.adjacent_lists.len()
    }

    /// The adjacency list of the given kind; `None` when the type has none.
    pub fn adjacent_list(&self, adj_list_type: AdjListType) -> (r: Option<AdjacentList>)
        ensures
            ({
                let i = adjacent_index(self@.adjacent_lists, adj_list_type, 0);
                if i < self@.adjacent_lists.len() {
                    r is Some && r->Some_0@ == self@.adjacent_lists[i]
                } else {
                    r is None
                }
            }),
            r is Some <==> has_kind(self@.adjacent_lists, adj_list_type),
    {
        proof {
            lemma_adjacent_index(self@.adjacent_lists, adj_list_type, 0);
        }
        let i = find_adjacent(&self.adjacent_lists, adj_list_type);
        if i < self.adjacent_lists.len() {
            Some(self.adjacent_lists[i].clone())
        } else {
            None
        }
    }

    /// The adjacency lists of the type, in their order.
    pub fn adjacent_lists(&self) -> (r: Vec<AdjacentList>)
        ensures
            r.deep_view() == self@.adjacent_lists,
    {
        clone_lists(&self.adjacent_lists)
    }

    /// The number of property groups.
    pub fn property_group_num(&self) -> (r: i32)
        ensures
            r == self@.property_groups.len(),
    {
        proof {
            use_type_invariant(self);
        }
        self.property_groups.len() as i32
    }

    /// The property groups of the type, in their order.
    pub fn property_groups(&self) -> (r: Vec<PropertyGroup>)
        ensures
            r.deep_view() == self@.property_groups,
    {
        clone_groups(&self.property_groups)
    }

    /// The groups, borrowed.
    pub fn property_groups_ref(&self) -> (r: &Vec<PropertyGroup>)
        ensures
            r.deep_view() == self@.property_groups,
            self@.wf(),
    {
        proof {
            use_type_invariant(self);
        }
        &self.property_groups
    }

    /// The first group that has a property called `property_name`; `None`
    /// when no group has one.
    pub fn property_group(&self, property_name: &str) -> (r: Option<PropertyGroup>)
        ensures
            ({
                let g = group_index(self@.property_groups, property_name@, 0);
                if g < self@.property_groups.len() {
                    r is Some && r->Some_0@ == self@.property_groups[g]
                } else {
                    r is None
                }
            }),
    {
        let g = find_group(&self.property_groups, property_name);
        if g < self.property_groups.len() {
            Some(self.property_groups[g].clone())
        } else {
            None
        }
    }

    /// The group at `index`; `None` when the index is out of range.
    pub fn property_group_by_index(&self, index: i32) -> (r: Option<PropertyGroup>)
        ensures
            0 <= index < self@.property_groups.len() ==> r is Some && r->Some_0@
                == self@.property_groups[index as int],
            !(0 <= index < self@.property_groups.len()) ==> r is None,
    {
        if index < 0 || index as usize >= self.property_groups.len() {
            None
        } else {
            Some(self.property_groups[index as usize].clone())
        }
    }
}

} // verus!
