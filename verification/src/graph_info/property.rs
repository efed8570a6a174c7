//! Properties and the groups in which they are stored.

use crate::error::GraphError;
use crate::graph_info::data_type::DataType;
use crate::text::str_eq;
use vstd::prelude::*;
use vstd::string::*;

verus! {

/// How many values a property holds for one vertex or edge.
#[derive(Clone, Copy, Debug, PartialEq, Eq, Structural)]
pub enum Cardinality {
    /// One value.
    Single,
    /// Several values, in order.
    List,
    /// Several values, none twice.
    Unique,
}

/// The format of a chunk file.
#[derive(Clone, Copy, Debug, PartialEq, Eq, Structural)]
pub enum FileType {
    Csv,
    Parquet,
    Orc,
    Json,
}

/// The extension of the files of a format.
pub open spec fn extension_of(file_type: FileType) -> Seq<char> {
    match file_type {
        FileType::Csv => "csv"@,
        FileType::Parquet => "parquet"@,
        FileType::Orc => "orc"@,
        FileType::Json => "json"@,
    }
}

impl FileType {
    /// The extension of the files of this format.
    pub fn extension(&self) -> (r: &'static str)
        ensures
            r@ == extension_of(*self),
    {
        match self {
            FileType::Csv => "csv",
            FileType::Parquet => "parquet",
            FileType::Orc => "orc",
            FileType::Json => "json",
        }
    }
}

/// A named, typed attribute of a vertex or an edge.
#[derive(Debug)]
pub struct Property {
    name: String,
    data_type: DataType,
    is_primary: bool,
    is_nullable: bool,
    cardinality: Cardinality,
}

/// What a property is, as a mathematical value.
pub struct PropertyView {
    pub name: Seq<char>,
    pub data_type: DataType,
    pub is_primary: bool,
    pub is_nullable: bool,
    pub cardinality: Cardinality,
}

impl View for Property {
    type V = PropertyView;

    closed spec fn view(&self) -> PropertyView {
        PropertyView {
            name: self.name@,
            data_type: self.data_type,
            is_primary: self.is_primary,
            is_nullable: self.is_nullable,
            cardinality: self.cardinality,
        }
    }
}

impl DeepView for Property {
    type V = PropertyView;

    open spec fn deep_view(&self) -> PropertyView {
        self@
    }
}

impl Clone for Property {
    fn clone(&self) -> (r: Self)
        ensures
            r@ == self@,
    {
        Property {
            name: self.name.clone(),
            data_type: self.data_type.clone(),
            is_primary: self.is_primary,
            is_nullable: self.is_nullable,
            cardinality: self.cardinality,
        }
    }
}

impl Property {
    /// A property with the given name, type and flags.
    pub fn new(
        name: &str,
        data_type: &DataType,
        is_primary: bool,
        is_nullable: bool,
        cardinality: Cardinality,
    ) -> (r: Self)
        ensures
            r@ == (PropertyView {
                name: name@,
                data_type: *data_type,
                is_primary,
                is_nullable,
                cardinality,
            }),
    {
        Property {
            name: name.to_owned(),
            data_type: data_type.clone(),
            is_primary,
            is_nullable,
            cardinality,
        }
    }

    /// The name of the property.
    pub fn name(&self) -> (r: String)
        ensures
            r@ == self@.name,
    {
        self.name.clone()
    }

    /// The name, borrowed.
    pub fn name_str(&self) -> (r: &str)
        ensures
            r@ == self@.name,
    {
        self.name.as_str()
    }

    /// The type of the property's values.
    pub fn data_type(&self) -> (r: DataType)
        ensures
            r == self@.data_type,
    {
        self.data_type.clone()
    }

    /// Whether the property is the primary key of its type.
    pub fn is_primary(&self) -> (r: bool)
        ensures
            r == self@.is_primary,
    {
        self.is_primary
    }

    /// Whether a vertex or an edge may lack a value for the property.
    pub fn is_nullable(&self) -> (r: bool)
        ensures
            r == self@.is_nullable,
    {
        self.is_nullable
    }

    /// How many values the property holds.
    pub fn cardinality(&self) -> (r: Cardinality)
        ensures
            r == self@.cardinality,
    {
        self.cardinality
    }
}

/// A list of properties from which a group is made.
pub struct PropertyVec {
    items: Vec<Property>,
}

impl View for PropertyVec {
    type V = Seq<PropertyView>;

    closed spec fn view(&self) -> Seq<PropertyView> {
        self.items.deep_view()
    }
}

impl Default for PropertyVec {
    fn default() -> (r: Self)
        ensures
            r@ == Seq::<PropertyView>::empty(),
    {
        Self::new()
    }
}

impl PropertyVec {
    /// A list without properties.
    pub fn new() -> (r: Self)
        ensures
            r@ == Seq::<PropertyView>::empty(),
    {
        let r = PropertyVec { items: Vec::new() };
        assert(r@ =~= Seq::<PropertyView>::empty());
        r
    }

    /// The list of the given properties.
    pub fn from_properties(items: Vec<Property>) -> (r: Self)
        ensures
            r@ == items.deep_view(),
    {
        PropertyVec { items }
    }

    /// Appends a property.
    pub fn add_property(&mut self, property: Property)
        ensures
            final(self)@ == old(self)@.push(property@),
    {
        self.items.push(property);
        assert(self@ =~= old(self)@.push(property@));
    }
}

/// No two properties of the list have the same name.
pub open spec fn names_unique(properties: Seq<PropertyView>) -> bool {
    forall|i: int, j: int|
        0 <= i < j < properties.len() ==> properties[i].name != properties[j].name
}

/// The index of the first property at or after `from` that is called `name`;
/// the length of the list if there is none.
pub open spec fn property_index(properties: Seq<PropertyView>, name: Seq<char>, from: int) -> int
    decreases properties.len() - from,
{
    if from < 0 || from >= properties.len() {
        properties.len() as int
    } else if properties[from].name == name {
        from
    } else {
        property_index(properties, name, from + 1)
    }
}

/// Whether a property of the list is called `name`.
pub open spec fn has_property_named(properties: Seq<PropertyView>, name: Seq<char>) -> bool {
    exists|i: int| 0 <= i < properties.len() && properties[i].name == name
}

/// `property_index` gives the first match at or after `from`, and the
/// length exactly when nothing from there on matches.
pub proof fn lemma_property_index(properties: Seq<PropertyView>, name: Seq<char>, from: int)
    requires
        0 <= from <= properties.len(),
    ensures
        from <= property_index(properties, name, from) <= properties.len(),
        property_index(properties, name, from) < properties.len() ==> properties[property_index(
            properties,
            name,
            from,
        )].name == name,
        forall|i: int|
            from <= i < property_index(properties, name, from) ==> properties[i].name != name,
    decreases properties.len() - from,
{
    if from < properties.len() && properties[from].name != name {
        lemma_property_index(properties, name, from + 1);
    }
}

/// A group has a property called `name` exactly when the first index of the
/// name lies inside the list.
pub proof fn lemma_property_index_found(properties: Seq<PropertyView>, name: Seq<char>)
    ensures
        has_property_named(properties, name) <==> property_index(properties, name, 0)
            < properties.len(),
{
    lemma_property_index(properties, name, 0);
}

/// The index of the first property called `name`, or the length of the list.
pub fn find_property(properties: &Vec<Property>, name: &str) -> (r: usize)
    ensures
        r == property_index(properties.deep_view(), name@, 0),
        r <= properties@.len(),
{
    let ghost views = properties.deep_view();
    let mut i: usize = 0;
    while i < properties.len()
        invariant
            0 <= i <= properties@.len(),
            views == properties.deep_view(),
            property_index(views, name@, 0) == property_index(views, name@, i as int),
        decreases properties@.len() - i,
    {
        if str_eq(properties[i].name_str(), name) {
            return i;
        }
        i += 1;
    }
    i
}

fn names_are_unique(properties: &Vec<Property>) -> (r: bool)
    ensures
        r == names_unique(properties.deep_view()),
{
    let ghost views = properties.deep_view();
    let mut j: usize = 0;
    while j < properties.len()
        invariant
            0 <= j <= properties@.len(),
            views == properties.deep_view(),
            forall|a: int, b: int| 0 <= a < b < j ==> views[a].name != views[b].name,
        decreases properties@.len() - j,
    {
        let mut i: usize = 0;
        while i < j
            invariant
                0 <= i <= j < properties@.len(),
                views == properties.deep_view(),
                forall|a: int| 0 <= a < i ==> views[a].name != views[j as int].name,
            decreases j - i,
        {
            if str_eq(properties[i].name_str(), properties[j].name_str()) {
                assert(views[i as int].name == views[j as int].name);
                return false;
            }
            i += 1;
        }
        j += 1;
    }
    true
}

/// Properties that are stored together: one file format, one path prefix,
/// and no name twice.
#[derive(Debug)]
pub struct PropertyGroup {
    properties: Vec<Property>,
    file_type: FileType,
    prefix: String,
}

/// What a property group is, as a mathematical value.
pub struct PropertyGroupView {
    pub properties: Seq<PropertyView>,
    pub file_type: FileType,
    pub prefix: Seq<char>,
}

impl PropertyGroupView {
    /// No name occurs twice in the group.
    pub open spec fn wf(self) -> bool {
        names_unique(self.properties)
    }
}

impl View for PropertyGroup {
    type V = PropertyGroupView;

    closed spec fn view(&self) -> PropertyGroupView {
        PropertyGroupView {
            properties: self.properties.deep_view(),
            file_type: self.file_type,
            prefix: self.prefix@,
        }
    }
}

impl DeepView for PropertyGroup {
    type V = PropertyGroupView;

    open spec fn deep_view(&self) -> PropertyGroupView {
        self@
    }
}

impl Clone for PropertyGroup {
    fn clone(&self) -> (r: Self)
        ensures
            r@ == self@,
    {
        proof {
            use_type_invariant(self);
        }
        let properties = self.properties.clone();
        assert(properties.deep_view() =~= self.properties.deep_view());
        PropertyGroup { properties, file_type: self.file_type, prefix: self.prefix.clone() }
    }
}

impl PropertyGroup {
    #[verifier::type_invariant]
    spec fn valid(&self) -> bool {
        self@.wf()
    }

    /// Makes a group of the given properties. Fails with `SchemaError` when
    /// two of them have the same name.
    pub fn new(properties: PropertyVec, file_type: FileType, prefix: &str) -> (r: Result<
        Self,
        GraphError,
    >)
        ensures
            names_unique(properties@) ==> r is Ok && r->Ok_0@ == (PropertyGroupView {
                properties: properties@,
                file_type,
                prefix: prefix@,
            }),
            !names_unique(properties@) ==> r == Err::<Self, GraphError>(GraphError::SchemaError),
    {
        if !names_are_unique(&properties.items) {
            return Err(GraphError::SchemaError);
        }
        Ok(PropertyGroup { properties: properties.items, file_type, prefix: prefix.to_owned() })
    }

    /// The properties of the group, in their order.
    pub fn properties(&self) -> (r: Vec<Property>)
        ensures
            r.deep_view() == self@.properties,
            self@.wf(),
    {
        proof {
            use_type_invariant(self);
        }
        let r = self.properties.clone();
        assert(r.deep_view() =~= self.properties.deep_view());
        r
    }

    /// The properties of the group, borrowed.
    pub fn properties_ref(&self) -> (r: &Vec<Property>)
        ensures
            r.deep_view() == self@.properties,
            self@.wf(),
    {
        proof {
            use_type_invariant(self);
        }
        &self.properties
    }

    /// Whether a property of the group is called `property_name`.
    pub fn has_property(&self, property_name: &str) -> (r: bool)
        ensures
            r == has_property_named(self@.properties, property_name@),
    {
        proof {
            lemma_property_index_found(self@.properties, property_name@);
        }
        find_property(&self.properties, property_name) < self.properties.len()
    }

    /// The format of the files of the group.
    pub fn file_type(&self) -> (r: FileType)
        ensures
            r == self@.file_type,
    {
        self.file_type
    }

    /// The prefix under which the files of the group lie.
    pub fn prefix(&self) -> (r: String)
        ensures
            r@ == self@.prefix,
    {
        self.prefix.clone()
    }

    /// The prefix, borrowed.
    pub fn prefix_str(&self) -> (r: &str)
        ensures
            r@ == self@.prefix,
    {
        self.prefix.as_str()
    }
}

/// A list of property groups from which a vertex or edge type is made.
pub struct PropertyGroupVector {
    items: Vec<PropertyGroup>,
}

impl View for PropertyGroupVector {
    type V = Seq<PropertyGroupView>;

    closed spec fn view(&self) -> Seq<PropertyGroupView> {
        self.items.deep_view()
    }
}

impl Default for PropertyGroupVector {
    fn default() -> (r: Self)
        ensures
            r@ == Seq::<PropertyGroupView>::empty(),
    {
        Self::new()
    }
}

impl PropertyGroupVector {
    /// A list without groups.
    pub fn new() -> (r: Self)
        ensures
            r@ == Seq::<PropertyGroupView>::empty(),
    {
        let r = PropertyGroupVector { items: Vec::new() };
        assert(r@ =~= Seq::<PropertyGroupView>::empty());
        r
    }

    /// The list of the given groups.
    pub fn from_groups(items: Vec<PropertyGroup>) -> (r: Self)
        ensures
            r@ == items.deep_view(),
    {
        PropertyGroupVector { items }
    }

    /// Appends a group.
    pub fn add_property_group(&mut self, property_group: PropertyGroup)
        ensures
            final(self)@ == old(self)@.push(property_group@),
    {
        self.items.push(property_group);
        assert(self@ =~= old(self)@.push(property_group@));
    }

    /// Hands out the groups.
    pub fn into_vec(self) -> (r: Vec<PropertyGroup>)
        ensures
            r.deep_view() == self@,
            groups_wf(self@),
    {
        let mut g: usize = 0;
        while g < self.items.len()
            invariant
                0 <= g <= self.items@.len(),
                forall|k: int| 0 <= k < g ==> (#[trigger] self.items.deep_view()[k]).wf(),
            decreases self.items@.len() - g,
        {
            let group = &self.items[g];
            proof {
                use_type_invariant(group);
            }
            g += 1;
        }
        self.items
    }
}

/// Every group of the list is well formed.
pub open spec fn groups_wf(groups: Seq<PropertyGroupView>) -> bool {
    forall|g: int| 0 <= g < groups.len() ==> (#[trigger] groups[g]).wf()
}

/// The index of the first group at or after `from` that has a property
/// called `name`; the number of groups if there is none.
pub open spec fn group_index(groups: Seq<PropertyGroupView>, name: Seq<char>, from: int) -> int
    decreases groups.len() - from,
{
    if from < 0 || from >= groups.len() {
        groups.len() as int
    } else if has_property_named(groups[from].properties, name) {
        from
    } else {
        group_index(groups, name, from + 1)
    }
}

/// `group_index` gives the first group at or after `from` that has the
/// property, and the number of groups exactly when none from there on has it.
pub proof fn lemma_group_index(groups: Seq<PropertyGroupView>, name: Seq<char>, from: int)
    requires
        0 <= from <= groups.len(),
    ensures
        from <= group_index(groups, name, from) <= groups.len(),
        group_index(groups, name, from) < groups.len() ==> has_property_named(
            groups[group_index(groups, name, from)].properties,
            name,
        ),
        forall|g: int|
            from <= g < group_index(groups, name, from) ==> !has_property_named(
                groups[g].properties,
                name,
            ),
    decreases groups.len() - from,
{
    if from < groups.len() && !has_property_named(groups[from].properties, name) {
        lemma_group_index(groups, name, from + 1);
    }
}

/// The index of the first group that has a property called `name`, or the
/// number of groups.
pub fn find_group(groups: &Vec<PropertyGroup>, name: &str) -> (r: usize)
    ensures
        r == group_index(groups.deep_view(), name@, 0),
        r <= groups@.len(),
{
    let ghost views = groups.deep_view();
    let mut g: usize = 0;
    while g < groups.len()
        invariant
            0 <= g <= groups@.len(),
            views == groups.deep_view(),
            group_index(views, name@, 0) == group_index(views, name@, g as int),
        decreases groups@.len() - g,
    {
        if groups[g].has_property(name) {
            return g;
        }
        g += 1;
    }
    g
}

/// Copies a list of groups.
pub fn clone_groups(groups: &Vec<PropertyGroup>) -> (r: Vec<PropertyGroup>)
    ensures
        r.deep_view() == groups.deep_view(),
{
    let r = groups.clone();
    assert(r.deep_view() =~= groups.deep_view());
    r
}

} // verus!
