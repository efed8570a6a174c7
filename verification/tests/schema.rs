use graphar::error::GraphError;
use graphar::graph_info::{
    AdjListType, AdjacentList, AdjacentListVector, Cardinality, DataType, EdgeInfo, FileType,
    GraphInfo, InfoVersion, Property, PropertyGroup, PropertyGroupVector, PropertyVec,
    VertexInfo,
};

fn mock_property_group() -> PropertyGroup {
    let file_type = FileType::Csv;
    let mut properties = PropertyVec::new();
    properties.add_property(Property::new(
        "bool",
        &DataType::bool(),
        false,
        false,
        Cardinality::Single,
    ));
    properties.add_property(Property::new(
        "i32",
        &DataType::int32(),
        false,
        false,
        Cardinality::Single,
    ));
    properties.add_property(Property::new(
        "i64",
        &DataType::int64(),
        false,
        false,
        Cardinality::Single,
    ));
    properties.add_property(Property::new(
        "f32",
        &DataType::float32(),
        false,
        false,
        Cardinality::Single,
    ));
    properties.add_property(Property::new(
        "f64",
        &DataType::float64(),
        false,
        false,
        Cardinality::Single,
    ));
    properties.add_property(Property::new(
        "string",
        &DataType::string(),
        false,
        false,
        Cardinality::Single,
    ));
    PropertyGroup::new(properties, file_type, "").unwrap()
}

fn mock_property_group_vector() -> PropertyGroupVector {
    let mut pgv = PropertyGroupVector::new();
    pgv.add_property_group(mock_property_group());
    pgv
}

fn mock_vertex_info() -> VertexInfo {
    let version = InfoVersion::new(1).unwrap();
    VertexInfo::new(
        "test_vertex".to_string(),
        100,
        mock_property_group_vector(),
        Vec::new(),
        "test_vertex",
        version,
    )
    .unwrap()
}

fn mock_adjacent_list() -> AdjacentList {
    AdjacentList::new(AdjListType::OrderedBySource, FileType::Csv, "test_adjacent_list")
}

fn mock_adjacent_list_vector() -> AdjacentListVector {
    let mut vec = AdjacentListVector::new();
    vec.add_adjacent_list(mock_adjacent_list());
    vec
}

fn mock_edge_info() -> EdgeInfo {
    let version = InfoVersion::new(1).unwrap();
    EdgeInfo::new(
        "src",
        "to",
        "dst",
        100,
        100,
        100,
        true,
        mock_adjacent_list_vector(),
        mock_property_group_vector(),
        "test_edge",
        version,
    )
    .unwrap()
}

fn simple_vertex_info(ty: &str) -> VertexInfo {
    let mut props = PropertyVec::new();
    props.add_property(Property::new(
        "id",
        &DataType::int64(),
        true,
        false,
        Cardinality::Single,
    ));
    let mut pgv = PropertyGroupVector::new();
    pgv.add_property_group(PropertyGroup::new(props, FileType::Csv, "id/").unwrap());
    VertexInfo::new(
        ty.to_string(),
        100,
        pgv,
        Vec::new(),
        ty,
        InfoVersion::new(1).unwrap(),
    )
    .unwrap()
}

fn simple_edge_info(src: &str, edge: &str, dst: &str) -> EdgeInfo {
    let mut adjs = AdjacentListVector::new();
    adjs.add_adjacent_list(AdjacentList::new(
        AdjListType::OrderedBySource,
        FileType::Csv,
        "ordered_by_source/",
    ));
    adjs.add_adjacent_list(AdjacentList::new(
        AdjListType::OrderedByDest,
        FileType::Csv,
        "ordered_by_dest/",
    ));
    EdgeInfo::new(
        src,
        edge,
        dst,
        1024,
        100,
        100,
        true,
        adjs,
        PropertyGroupVector::new(),
        "edge/",
        InfoVersion::new(1).unwrap(),
    )
    .unwrap()
}

fn modern_graph() -> GraphInfo {
    let vertices = vec![simple_vertex_info("person"), simple_vertex_info("software")];
    let edges = vec![
        simple_edge_info("person", "knows", "person"),
        simple_edge_info("person", "created", "software"),
    ];
    GraphInfo::new(
        "modern_graph",
        &vertices,
        &edges,
        &Vec::new(),
        "./",
        Some(InfoVersion::new(1).unwrap()),
    )
    .unwrap()
}

#[test]
fn test_properties_group() {
    let pg = mock_property_group();

    assert_eq!(pg.properties().len(), 6);
    assert!(pg.has_property("bool"));
    assert!(pg.has_property("i32"));
    assert!(pg.has_property("i64"));
    assert!(pg.has_property("f32"));
    assert!(pg.has_property("f64"));
    assert!(pg.has_property("string"));
}

#[test]
fn test_vertex_info() {
    let vertex_info = mock_vertex_info();

    assert_eq!(vertex_info.property_group_num(), 1);

    let pg = vertex_info.property_group_by_index(0).unwrap();
    assert_eq!(pg.properties().len(), 6);

    assert!(pg.has_property("bool"));
    assert!(pg.has_property("i32"));
    assert!(pg.has_property("i64"));
    assert!(pg.has_property("f32"));
    assert!(pg.has_property("f64"));
    assert!(pg.has_property("string"));
}

#[test]
fn test_adj_list() {
    let adj_list = mock_adjacent_list();
    assert_eq!(adj_list.list_type(), AdjListType::OrderedBySource);
    assert_eq!(adj_list.file_type(), FileType::Csv);
    assert_eq!(adj_list.prefix().as_bytes(), "test_adjacent_list".as_bytes());
}

#[test]
fn test_edge_info() {
    let edge_info = mock_edge_info();

    assert_eq!(edge_info.chunk_size(), 100);
    assert_eq!(edge_info.src_chunk_size(), 100);
    assert_eq!(edge_info.dst_chunk_size(), 100);
    assert_eq!(edge_info.src_type(), "src");
    assert_eq!(edge_info.edge_type(), "to");
    assert_eq!(edge_info.dst_type(), "dst");
    assert!(edge_info.is_directed());
    assert_eq!(edge_info.prefix(), "test_edge");
}

#[test]
fn modern_graph_indices() {
    let graph_info = modern_graph();

    assert_eq!(graph_info.vertex_info_index("person"), 0);
    assert_eq!(graph_info.vertex_info_index("software"), 1);

    assert_eq!(graph_info.edge_info_index("person", "knows", "person"), 0);
    assert_eq!(
        graph_info.edge_info_index("person", "created", "software"),
        1
    );
}

#[test]
fn graph_info_getters() {
    let info = modern_graph();
    assert_eq!(info.name(), "modern_graph");
    assert_eq!(info.vertex_info_num(), 2);
    assert_eq!(info.edge_info_num(), 2);
    assert_eq!(info.prefix(), "./");
    assert!(info.labels().is_empty());
    assert_eq!(info.version().unwrap().to_string(), "gar/v1");
    assert_eq!(info.vertex_infos().len(), 2);
    assert_eq!(info.edge_infos().len(), 2);
    assert_eq!(info.vertex_info("software").unwrap().ty(), "software");
    assert!(info.vertex_info("animal").is_none());
    assert_eq!(info.vertex_info_index("animal"), -1);
    assert_eq!(
        info.edge_info("person", "created", "software")
            .unwrap()
            .edge_type(),
        "created"
    );
    assert!(info.edge_info("person", "created", "person").is_none());
    assert_eq!(info.edge_info_index("software", "knows", "person"), -1);
}

#[test]
fn graph_info_without_version() {
    let info = GraphInfo::new("g", &Vec::new(), &Vec::new(), &vec!["a".to_string()], "", None)
        .unwrap();
    assert!(info.version().is_none());
    assert_eq!(info.labels(), vec!["a".to_string()]);
    assert_eq!(info.vertex_info_num(), 0);
}

#[test]
fn graph_info_rejects_undeclared_endpoint() {
    let vertices = vec![simple_vertex_info("person")];
    let edges = vec![simple_edge_info("person", "created", "software")];
    let r = GraphInfo::new("g", &vertices, &edges, &Vec::new(), "", None);
    assert_eq!(r.err(), Some(GraphError::SchemaError));
    let edges = vec![simple_edge_info("software", "uses", "person")];
    let r = GraphInfo::new("g", &vertices, &edges, &Vec::new(), "", None);
    assert_eq!(r.err(), Some(GraphError::SchemaError));
}

#[test]
fn info_version_supports_only_version_one() {
    assert_eq!(InfoVersion::new(1).unwrap().version(), 1);
    assert_eq!(InfoVersion::new(0).err(), Some(GraphError::SchemaError));
    assert_eq!(InfoVersion::new(2).err(), Some(GraphError::SchemaError));
    assert_eq!(InfoVersion::new(-1).err(), Some(GraphError::SchemaError));
}

#[test]
fn property_getters() {
    let p = Property::new("age", &DataType::int32(), true, false, Cardinality::List);
    assert_eq!(p.name(), "age");
    assert_eq!(p.name_str(), "age");
    assert_eq!(p.data_type(), DataType::int32());
    assert!(p.is_primary());
    assert!(!p.is_nullable());
    assert_eq!(p.cardinality(), Cardinality::List);
    let q = p.clone();
    assert_eq!(q.name(), "age");
    assert_eq!(q.cardinality(), Cardinality::List);
}

#[test]
fn property_group_rejects_duplicate_names() {
    let mut props = PropertyVec::new();
    props.add_property(Property::new("a", &DataType::bool(), false, false, Cardinality::Single));
    props.add_property(Property::new("b", &DataType::bool(), false, false, Cardinality::Single));
    props.add_property(Property::new("a", &DataType::int64(), false, true, Cardinality::Single));
    let r = PropertyGroup::new(props, FileType::Orc, "x/");
    assert_eq!(r.err(), Some(GraphError::SchemaError));
}

#[test]
fn property_group_getters() {
    let pg = mock_property_group();
    assert_eq!(pg.file_type(), FileType::Csv);
    assert_eq!(pg.prefix(), "");
    assert!(!pg.has_property("missing"));
    let names: Vec<String> = pg.properties().iter().map(|p| p.name()).collect();
    assert_eq!(names, vec!["bool", "i32", "i64", "f32", "f64", "string"]);
    assert_eq!(FileType::Csv.extension(), "csv");
    assert_eq!(FileType::Parquet.extension(), "parquet");
    assert_eq!(FileType::Orc.extension(), "orc");
    assert_eq!(FileType::Json.extension(), "json");
}

#[test]
fn vertex_info_getters_and_validation() {
    let info = mock_vertex_info();
    assert_eq!(info.ty(), "test_vertex");
    assert_eq!(info.chunk_size(), 100);
    assert_eq!(info.prefix(), "test_vertex");
    assert_eq!(info.version().version(), 1);
    assert!(info.labels().is_empty());
    assert_eq!(info.property_groups().len(), 1);
    assert!(info.property_group("i64").is_some());
    assert!(info.property_group("nothing").is_none());
    assert!(info.property_group_by_index(1).is_none());
    assert!(info.property_group_by_index(-1).is_none());

    let v = InfoVersion::new(1).unwrap();
    let r = VertexInfo::new("".to_string(), 4, PropertyGroupVector::new(), vec![], "", v);
    assert_eq!(r.err(), Some(GraphError::SchemaError));
    let r = VertexInfo::new("a".to_string(), 0, PropertyGroupVector::new(), vec![], "", v);
    assert_eq!(r.err(), Some(GraphError::SchemaError));
    let r = VertexInfo::new("a".to_string(), -3, PropertyGroupVector::new(), vec![], "", v);
    assert_eq!(r.err(), Some(GraphError::SchemaError));
    let r = VertexInfo::new(
        "a".to_string(),
        1,
        PropertyGroupVector::new(),
        vec!["l".to_string()],
        "p",
        v,
    );
    assert_eq!(r.unwrap().labels(), vec!["l".to_string()]);
}

#[test]
fn vertex_info_finds_first_group_with_property() {
    let mut first = PropertyVec::new();
    first.add_property(Property::new("id", &DataType::int64(), true, false, Cardinality::Single));
    let mut second = PropertyVec::new();
    second.add_property(Property::new("name", &DataType::string(), false, true, Cardinality::Single));
    second.add_property(Property::new("id", &DataType::int32(), false, true, Cardinality::Single));
    let mut pgv = PropertyGroupVector::new();
    pgv.add_property_group(PropertyGroup::new(first, FileType::Csv, "first/").unwrap());
    pgv.add_property_group(PropertyGroup::new(second, FileType::Parquet, "second/").unwrap());
    let info = VertexInfo::new(
        "person".to_string(),
        10,
        pgv,
        vec![],
        "",
        InfoVersion::new(1).unwrap(),
    )
    .unwrap();
    assert_eq!(info.property_group_num(), 2);
    assert_eq!(info.property_group("id").unwrap().prefix(), "first/");
    assert_eq!(info.property_group("name").unwrap().prefix(), "second/");
    assert_eq!(info.property_group_by_index(1).unwrap().file_type(), FileType::Parquet);
}

#[test]
fn edge_info_getters_and_validation() {
    let info = simple_edge_info("person", "knows", "person");
    assert!(info.has_adjacent_list_type(AdjListType::OrderedBySource));
    assert!(info.has_adjacent_list_type(AdjListType::OrderedByDest));
    assert!(!info.has_adjacent_list_type(AdjListType::UnorderedBySource));
    assert_eq!(
        info.adjacent_list(AdjListType::OrderedByDest).unwrap().prefix(),
        "ordered_by_dest/"
    );
    assert!(info.adjacent_list(AdjListType::UnorderedByDest).is_none());
    assert_eq!(info.property_group_num(), 0);
    assert!(info.property_groups().is_empty());
    assert!(info.property_group("x").is_none());
    assert!(info.property_group_by_index(0).is_none());
    assert_eq!(info.version().to_string(), "gar/v1");
    assert_eq!(mock_edge_info().property_group_num(), 1);
    assert!(mock_edge_info().property_group("string").is_some());

    let v = InfoVersion::new(1).unwrap();
    let make = |src: &str, edge: &str, dst: &str, c: i64, s: i64, d: i64, kinds: Vec<AdjListType>| {
        let mut adjs = AdjacentListVector::new();
        for k in kinds {
            adjs.add_adjacent_list(AdjacentList::new(k, FileType::Csv, ""));
        }
        EdgeInfo::new(src, edge, dst, c, s, d, false, adjs, PropertyGroupVector::new(), "", v)
            .err()
    };
    let one = vec![AdjListType::UnorderedBySource];
    assert_eq!(make("a", "b", "c", 1, 1, 1, one.clone()), None);
    assert_eq!(make("", "b", "c", 1, 1, 1, one.clone()), Some(GraphError::SchemaError));
    assert_eq!(make("a", "", "c", 1, 1, 1, one.clone()), Some(GraphError::SchemaError));
    assert_eq!(make("a", "b", "", 1, 1, 1, one.clone()), Some(GraphError::SchemaError));
    assert_eq!(make("a", "b", "c", 0, 1, 1, one.clone()), Some(GraphError::SchemaError));
    assert_eq!(make("a", "b", "c", 1, 0, 1, one.clone()), Some(GraphError::SchemaError));
    assert_eq!(make("a", "b", "c", 1, 1, -1, one.clone()), Some(GraphError::SchemaError));
    assert_eq!(make("a", "b", "c", 1, 1, 1, vec![]), Some(GraphError::SchemaError));
    assert_eq!(
        make(
            "a",
            "b",
            "c",
            1,
            1,
            1,
            vec![
                AdjListType::OrderedBySource,
                AdjListType::UnorderedByDest,
                AdjListType::OrderedBySource
            ]
        ),
        Some(GraphError::SchemaError)
    );
}

#[test]
fn adjacency_kind_names() {
    assert_eq!(AdjListType::UnorderedBySource.name(), "unordered_by_source");
    assert_eq!(AdjListType::UnorderedByDest.name(), "unordered_by_dest");
    assert_eq!(AdjListType::OrderedBySource.name(), "ordered_by_source");
    assert_eq!(AdjListType::OrderedByDest.name(), "ordered_by_dest");
    assert!(AdjListType::OrderedByDest.is_ordered());
    assert!(!AdjListType::UnorderedBySource.is_ordered());
    assert!(AdjListType::UnorderedBySource.is_by_source());
    assert!(!AdjListType::OrderedByDest.is_by_source());
}

#[test]
fn error_names() {
    assert_eq!(GraphError::SchemaError.to_string(), "SchemaError");
    assert_eq!(GraphError::IOError.to_string(), "IOError");
    assert_eq!(GraphError::TypeMismatchError.to_string(), "TypeMismatchError");
    assert_eq!(GraphError::MissingPropertyError.to_string(), "MissingPropertyError");
    assert_eq!(GraphError::OutOfRangeError.to_string(), "OutOfRangeError");
}
