use graphar::chunk::{Chunk, VertexChunks};
use graphar::error::GraphError;
use graphar::graph_builder::{EdgeBuilder, EdgesBuilder, VertexBuilder, VerticesBuilder};
use graphar::graph_info::{
    AdjListType, AdjacentList, AdjacentListVector, Cardinality, DataType, EdgeInfo, FileType,
    InfoVersion, Property, PropertyGroup, PropertyGroupVector, PropertyVec, VertexInfo,
};
use graphar::value::Value;

fn make_vertex_info() -> VertexInfo {
    let mut props = PropertyVec::new();
    props.add_property(Property::new(
        "id",
        &DataType::int64(),
        true,
        false,
        Cardinality::Single,
    ));
    props.add_property(Property::new(
        "name",
        &DataType::string(),
        false,
        false,
        Cardinality::Single,
    ));
    let mut pgv = PropertyGroupVector::new();
    pgv.add_property_group(PropertyGroup::new(props, FileType::Parquet, "").unwrap());
    let ver = InfoVersion::new(1).unwrap();
    VertexInfo::new("person".into(), 4, pgv, vec![], "", ver).unwrap()
}

fn make_edge_info() -> EdgeInfo {
    let mut adjs = AdjacentListVector::new();
    adjs.add_adjacent_list(AdjacentList::new(
        AdjListType::OrderedBySource,
        FileType::Orc,
        "",
    ));
    let mut edge_props = PropertyVec::new();
    edge_props.add_property(Property::new(
        "friend",
        &DataType::string(),
        false,
        true,
        Cardinality::Single,
    ));
    let mut edge_prop_groups = PropertyGroupVector::new();
    edge_prop_groups.add_property_group(
        PropertyGroup::new(edge_props, FileType::Csv, "props/").unwrap(),
    );
    let ver = InfoVersion::new(1).unwrap();
    EdgeInfo::new(
        "person",
        "knows",
        "person",
        4,
        4,
        4,
        true,
        adjs,
        edge_prop_groups,
        "",
        ver,
    )
    .unwrap()
}

fn mock_vertex() -> VertexBuilder {
    let mut v = VertexBuilder::new();
    v.add_property("bool".into(), true);
    v.add_property("i32".into(), 114514_i32);
    v.add_property("i64".into(), 1919810_i64);
    v.add_property("f32".into(), Value::Float32(1919810.114514_f32.to_bits()));
    v.add_property("f64".into(), Value::Float64(114514.1919810_f64.to_bits()));
    v.add_property("string".into(), "string_value".to_string());
    v
}

fn mock_vertex_info() -> VertexInfo {
    let mut properties = PropertyVec::new();
    for (name, ty) in [
        ("bool", DataType::bool()),
        ("i32", DataType::int32()),
        ("i64", DataType::int64()),
        ("f32", DataType::float32()),
        ("f64", DataType::float64()),
        ("string", DataType::string()),
    ] {
        properties.add_property(Property::new(name, &ty, false, false, Cardinality::Single));
    }
    let mut pgv = PropertyGroupVector::new();
    pgv.add_property_group(PropertyGroup::new(properties, FileType::Csv, "").unwrap());
    VertexInfo::new(
        "test_vertex".to_string(),
        100,
        pgv,
        Vec::new(),
        "test_vertex",
        InfoVersion::new(1).unwrap(),
    )
    .unwrap()
}

fn mock_edge_info() -> EdgeInfo {
    let mut properties = PropertyVec::new();
    for (name, ty) in [
        ("bool", DataType::bool()),
        ("i32", DataType::int32()),
        ("i64", DataType::int64()),
        ("f32", DataType::float32()),
        ("f64", DataType::float64()),
        ("string", DataType::string()),
    ] {
        properties.add_property(Property::new(name, &ty, false, false, Cardinality::Single));
    }
    let mut pgv = PropertyGroupVector::new();
    pgv.add_property_group(PropertyGroup::new(properties, FileType::Csv, "").unwrap());
    let mut adjs = AdjacentListVector::new();
    adjs.add_adjacent_list(AdjacentList::new(
        AdjListType::OrderedBySource,
        FileType::Csv,
        "test_adjacent_list",
    ));
    EdgeInfo::new(
        "src",
        "to",
        "dst",
        100,
        100,
        100,
        true,
        adjs,
        pgv,
        "test_edge",
        InfoVersion::new(1).unwrap(),
    )
    .unwrap()
}

fn mock_edge() -> EdgeBuilder {
    let mut e = EdgeBuilder::new(1, 2);
    e.add_property("bool".into(), true);
    e.add_property("i32".into(), 114514_i32);
    e.add_property("i64".into(), 1919810_i64);
    e.add_property("f32".into(), Value::Float32(1919810.114514_f32.to_bits()));
    e.add_property("f64".into(), Value::Float64(114514.1919810_f64.to_bits()));
    e.add_property("string".into(), "string_value".to_string());
    e
}

fn text(cell: &Option<Value>) -> String {
    cell.as_ref().unwrap().as_string().unwrap()
}

fn column_lengths(chunks: &[Chunk]) -> Vec<usize> {
    chunks.iter().map(|c| c.columns[0].len()).collect()
}

#[test]
fn test_vertex() {
    let v = mock_vertex();
    let record = v.record();
    assert_eq!(record.get("bool").unwrap().as_bool(), Ok(true));
    assert_eq!(record.get("i32").unwrap().as_i32(), Ok(114514));
    assert_eq!(record.get("i64").unwrap().as_i64(), Ok(1919810));
    assert_eq!(
        record.get("f32").unwrap().as_f32_bits(),
        Ok(1919810.114514_f32.to_bits())
    );
    assert_eq!(
        record.get("f64").unwrap().as_f64_bits(),
        Ok(114514.1919810_f64.to_bits())
    );
    assert_eq!(
        record.get("string").unwrap().as_string(),
        Ok("string_value".to_string())
    );
    assert!(record.get("other").is_none());
}

#[test]
fn test_vertices_builder() {
    let vertex_info = mock_vertex_info();
    let mut builder = VerticesBuilder::new(&vertex_info, "/tmp/", 0).unwrap();
    let v = mock_vertex();
    builder.add_vertex(v).unwrap();
    let chunks = builder.dump().unwrap();
    assert_eq!(chunks.count, 1);
    assert_eq!(chunks.first_chunk, 0);
    assert_eq!(chunks.groups.len(), 1);
    assert_eq!(chunks.groups[0].len(), 1);
    assert_eq!(chunks.groups[0][0].columns.len(), 6);
    assert_eq!(text(&chunks.groups[0][0].columns[5][0]), "string_value");
}

#[test]
fn test_edges_builder() {
    let edge_info = mock_edge_info();
    let mut builder =
        EdgesBuilder::new(&edge_info, "/tmp/", AdjListType::OrderedBySource, 2).unwrap();
    let e = mock_edge();
    builder.add_edge(e).unwrap();
    let chunks = builder.dump().unwrap();
    assert_eq!(chunks.partitions.len(), 1);
    assert_eq!(chunks.partitions[0].rows, vec![(1, 2)]);
    assert_eq!(chunks.partitions[0].offsets, vec![0, 0, 1]);
    assert_eq!(chunks.groups[0].len(), 1);
    assert_eq!(chunks.groups[0][0].columns[1][0].as_ref().unwrap().as_i32(), Ok(114514));
}

#[test]
fn test_vertices_builder_add_and_dump() {
    let vi = make_vertex_info();
    let mut vb = VerticesBuilder::new(&vi, "vertex/", 0).unwrap();

    let mut alice = VertexBuilder::new();
    alice.add_property("id".into(), 1_i64);
    alice.add_property("name".into(), "alice".to_string());
    vb.add_vertex(alice).unwrap();

    let mut bob = VertexBuilder::new();
    bob.add_property("id".into(), 2_i64);
    bob.add_property("name".into(), "bob".to_string());
    vb.add_vertex(bob).unwrap();

    let chunks = vb.dump().unwrap();
    assert_eq!(chunks.count, 2);
    assert_eq!(column_lengths(&chunks.groups[0]), vec![2]);
    assert_eq!(text(&chunks.groups[0][0].columns[1][0]), "alice");
    assert_eq!(text(&chunks.groups[0][0].columns[1][1]), "bob");
}

#[test]
fn test_edges_builder_add_and_dump() {
    let ei = make_edge_info();
    let mut eb = EdgesBuilder::new(&ei, "edge/", AdjListType::OrderedBySource, 2).unwrap();

    let mut e = EdgeBuilder::new(1, 2);
    e.add_property("friend".into(), "bob".to_string());
    eb.add_edge(e).unwrap();
    assert_eq!(eb.prefix(), "edge/");
    assert_eq!(eb.adj_list_type(), AdjListType::OrderedBySource);
}

#[test]
fn test_vertices_builder_various_property_types() {
    let mut props = PropertyVec::new();
    props.add_property(Property::new(
        "id",
        &DataType::int64(),
        true,
        false,
        Cardinality::Single,
    ));
    props.add_property(Property::new(
        "active",
        &DataType::bool(),
        false,
        false,
        Cardinality::Single,
    ));
    props.add_property(Property::new(
        "age_i32",
        &DataType::int32(),
        false,
        false,
        Cardinality::Single,
    ));
    props.add_property(Property::new(
        "score_f32",
        &DataType::float32(),
        false,
        false,
        Cardinality::Single,
    ));
    props.add_property(Property::new(
        "rating_f64",
        &DataType::float64(),
        false,
        false,
        Cardinality::Single,
    ));
    props.add_property(Property::new(
        "name",
        &DataType::string(),
        false,
        false,
        Cardinality::Single,
    ));
    let mut pgv = PropertyGroupVector::new();
    pgv.add_property_group(PropertyGroup::new(props, FileType::Parquet, "").unwrap());
    let ver = InfoVersion::new(1).unwrap();
    let vi = VertexInfo::new("person".into(), 4, pgv, vec![], "", ver).unwrap();

    let mut vb = VerticesBuilder::new(&vi, "vertex/", 0).unwrap();

    let mut alice = VertexBuilder::new();
    alice.add_property("id".into(), 1_i64);
    alice.add_property("active".into(), true);
    alice.add_property("age_i32".into(), 30_i32);
    alice.add_property("score_f32".into(), Value::Float32(0.9_f32.to_bits()));
    alice.add_property("rating_f64".into(), Value::Float64(4.5_f64.to_bits()));
    alice.add_property("name".into(), "alice".to_string());
    vb.add_vertex(alice).unwrap();
    let chunks = vb.dump().unwrap();
    let columns = &chunks.groups[0][0].columns;
    assert_eq!(columns[0][0].as_ref().unwrap().as_i64(), Ok(1));
    assert_eq!(columns[1][0].as_ref().unwrap().as_bool(), Ok(true));
    assert_eq!(columns[2][0].as_ref().unwrap().as_i32(), Ok(30));
    assert_eq!(
        f32::from_bits(columns[3][0].as_ref().unwrap().as_f32_bits().unwrap()),
        0.9_f32
    );
    assert_eq!(
        f64::from_bits(columns[4][0].as_ref().unwrap().as_f64_bits().unwrap()),
        4.5_f64
    );
    assert_eq!(text(&columns[5][0]), "alice");
}

fn named_vertices(count: i64, start: i64, chunk_size: i64) -> VertexChunks {
    let mut props = PropertyVec::new();
    props.add_property(Property::new(
        "name",
        &DataType::string(),
        false,
        false,
        Cardinality::Single,
    ));
    let mut pgv = PropertyGroupVector::new();
    pgv.add_property_group(PropertyGroup::new(props, FileType::Csv, "name/").unwrap());
    let vi = VertexInfo::new(
        "person".into(),
        chunk_size,
        pgv,
        vec![],
        "",
        InfoVersion::new(1).unwrap(),
    )
    .unwrap();
    let mut vb = VerticesBuilder::new(&vi, "root", start).unwrap();
    for i in 0..count {
        let mut v = VertexBuilder::new();
        v.add_property("name".into(), format!("v{}", start + i));
        vb.add_vertex(v).unwrap();
    }
    vb.dump().unwrap()
}

#[test]
fn dump_cuts_ten_vertices_into_chunks_of_four_four_two() {
    let chunks = named_vertices(10, 0, 4);
    assert_eq!(chunks.count, 10);
    assert_eq!(chunks.first_chunk, 0);
    assert_eq!(chunks.groups.len(), 1);
    assert_eq!(column_lengths(&chunks.groups[0]), vec![4, 4, 2]);
    assert_eq!(text(&chunks.groups[0][2].columns[0][1]), "v9");
    assert_eq!(text(&chunks.groups[0][0].columns[0][0]), "v0");
    assert_eq!(text(&chunks.groups[0][1].columns[0][3]), "v7");
}

#[test]
fn dump_chunk_counts_follow_ceiling_division() {
    for (n, c, expected) in [
        (0_i64, 3_i64, vec![]),
        (1, 3, vec![1_usize]),
        (3, 3, vec![3]),
        (4, 3, vec![3, 1]),
        (6, 3, vec![3, 3]),
        (7, 1, vec![1, 1, 1, 1, 1, 1, 1]),
        (5, 100, vec![5]),
    ] {
        let chunks = named_vertices(n, 0, c);
        assert_eq!(chunks.count as i64, n);
        assert_eq!(column_lengths(&chunks.groups[0]), expected);
    }
}

#[test]
fn dump_numbers_first_chunk_by_start_index() {
    assert_eq!(named_vertices(3, 8, 4).first_chunk, 2);
    assert_eq!(named_vertices(3, 9, 4).first_chunk, 2);
    assert_eq!(named_vertices(3, 3, 4).first_chunk, 0);
    assert_eq!(named_vertices(0, 40, 4).first_chunk, 10);
}

#[test]
fn vertices_builder_rejects_negative_start() {
    let vi = make_vertex_info();
    assert_eq!(
        VerticesBuilder::new(&vi, "", -1).err(),
        Some(GraphError::OutOfRangeError)
    );
}

#[test]
fn vertices_builder_assigns_ids_in_order() {
    let vi = make_vertex_info();
    let mut vb = VerticesBuilder::new(&vi, "p", 7).unwrap();
    assert_eq!(vb.next_id(), Ok(7));
    vb.add_vertex(VertexBuilder::new()).unwrap();
    assert_eq!(vb.next_id(), Ok(8));
    vb.add_vertex(VertexBuilder::default()).unwrap();
    assert_eq!(vb.next_id(), Ok(9));
    assert_eq!(vb.prefix(), "p");
    assert_eq!(vb.vertex_info().ty(), "person");
}

#[test]
fn vertices_builder_rejects_id_beyond_i64() {
    let vi = make_vertex_info();
    let mut vb = VerticesBuilder::new(&vi, "p", i64::MAX).unwrap();
    assert_eq!(vb.next_id(), Ok(i64::MAX));
    assert_eq!(vb.add_vertex(VertexBuilder::new()), Ok(()));
    assert_eq!(
        vb.add_vertex(VertexBuilder::new()),
        Err(GraphError::OutOfRangeError)
    );
    assert_eq!(vb.next_id(), Err(GraphError::OutOfRangeError));
}

#[test]
fn dump_defers_validation_and_reports_missing_property() {
    let vi = make_vertex_info();
    let mut vb = VerticesBuilder::new(&vi, "", 0).unwrap();
    let mut partial = VertexBuilder::new();
    partial.add_property("id".into(), 1_i64);
    assert_eq!(vb.add_vertex(partial), Ok(()));
    assert_eq!(vb.dump().err(), Some(GraphError::MissingPropertyError));
}

#[test]
fn dump_reports_type_mismatch_after_missing_property() {
    let vi = make_vertex_info();
    let mut vb = VerticesBuilder::new(&vi, "", 0).unwrap();
    let mut wrong = VertexBuilder::new();
    wrong.add_property("id".into(), 1_i32);
    wrong.add_property("name".into(), "a".to_string());
    vb.add_vertex(wrong).unwrap();
    assert_eq!(vb.dump().err(), Some(GraphError::TypeMismatchError));

    let mut lacking = VertexBuilder::new();
    lacking.add_property("name".into(), "b".to_string());
    vb.add_vertex(lacking).unwrap();
    assert_eq!(vb.dump().err(), Some(GraphError::MissingPropertyError));
}

#[test]
fn later_value_replaces_earlier_one() {
    let vi = make_vertex_info();
    let mut vb = VerticesBuilder::new(&vi, "", 0).unwrap();
    let mut v = VertexBuilder::new();
    v.add_property("id".into(), 1_i32);
    v.add_property("name".into(), "old".to_string());
    v.add_property("id".into(), 5_i64);
    v.add_property("name".into(), "new".to_string());
    vb.add_vertex(v).unwrap();
    let chunks = vb.dump().unwrap();
    assert_eq!(chunks.groups[0][0].columns[0][0].as_ref().unwrap().as_i64(), Ok(5));
    assert_eq!(text(&chunks.groups[0][0].columns[1][0]), "new");
}

#[test]
fn nullable_property_without_value_gives_empty_cell() {
    let ei = make_edge_info();
    let mut eb = EdgesBuilder::new(&ei, "", AdjListType::OrderedBySource, 4).unwrap();
    eb.add_edge(EdgeBuilder::new(0, 1)).unwrap();
    let mut e = EdgeBuilder::new(0, 2);
    e.add_property("friend".into(), "carol".to_string());
    eb.add_edge(e).unwrap();
    let chunks = eb.dump().unwrap();
    assert!(chunks.groups[0][0].columns[0][0].is_none());
    assert_eq!(text(&chunks.groups[0][0].columns[0][1]), "carol");
}

#[test]
fn date_and_timestamp_are_held_as_integers() {
    assert!(Value::Int32(3).has_type(&DataType::date()));
    assert!(Value::Int32(3).has_type(&DataType::int32()));
    assert!(!Value::Int32(3).has_type(&DataType::int64()));
    assert!(Value::Int64(3).has_type(&DataType::timestamp()));
    assert!(!Value::Int64(3).has_type(&DataType::date()));
    assert!(!Value::Bool(true).has_type(&DataType::null()));
    assert!(Value::String("a".into()).has_type(&DataType::string()));
    assert!(Value::Float32(0).has_type(&DataType::float32()));
    assert!(!Value::Float32(0).has_type(&DataType::float64()));
    assert!(Value::Float64(0).has_type(&DataType::float64()));
}

#[test]
fn list_values_match_list_types_item_by_item() {
    let ints = DataType::list(&DataType::int32());
    let good = Value::List(vec![Value::Int32(1), Value::Int32(2)]);
    let bad = Value::List(vec![Value::Int32(1), Value::Bool(true)]);
    let empty = Value::List(vec![]);
    assert!(good.has_type(&ints));
    assert!(!bad.has_type(&ints));
    assert!(empty.has_type(&ints));
    assert!(!good.has_type(&DataType::int32()));
    let nested = Value::List(vec![good.clone(), empty.clone()]);
    assert!(nested.has_type(&DataType::list(&ints)));
    assert!(!nested.has_type(&ints));
    assert_eq!(nested.as_list().unwrap().len(), 2);
    assert_eq!(good.as_list().unwrap()[1].as_i32(), Ok(2));
}

#[test]
fn typed_getters_fail_on_other_variants() {
    let v = Value::Int64(4);
    assert_eq!(v.as_bool(), Err(GraphError::TypeMismatchError));
    assert_eq!(v.as_i32(), Err(GraphError::TypeMismatchError));
    assert_eq!(v.as_f32_bits(), Err(GraphError::TypeMismatchError));
    assert_eq!(v.as_f64_bits(), Err(GraphError::TypeMismatchError));
    assert_eq!(v.as_string(), Err(GraphError::TypeMismatchError));
    assert_eq!(v.as_list().err(), Some(GraphError::TypeMismatchError));
    assert_eq!(Value::Bool(false).as_i64(), Err(GraphError::TypeMismatchError));
}

fn plain_edge_info(chunk_size: i64, src_chunk: i64, dst_chunk: i64) -> EdgeInfo {
    let mut adjs = AdjacentListVector::new();
    for kind in [
        AdjListType::OrderedBySource,
        AdjListType::OrderedByDest,
        AdjListType::UnorderedBySource,
        AdjListType::UnorderedByDest,
    ] {
        adjs.add_adjacent_list(AdjacentList::new(kind, FileType::Csv, kind.name()));
    }
    let mut props = PropertyVec::new();
    props.add_property(Property::new(
        "tag",
        &DataType::int64(),
        false,
        false,
        Cardinality::Single,
    ));
    let mut groups = PropertyGroupVector::new();
    groups.add_property_group(PropertyGroup::new(props, FileType::Csv, "tag/").unwrap());
    EdgeInfo::new(
        "a",
        "to",
        "b",
        chunk_size,
        src_chunk,
        dst_chunk,
        true,
        adjs,
        groups,
        "",
        InfoVersion::new(1).unwrap(),
    )
    .unwrap()
}

fn tagged_edges(info: &EdgeInfo, kind: AdjListType, vertices: i64, pairs: &[(i64, i64)]) -> EdgesBuilder {
    let mut eb = EdgesBuilder::new(info, "", kind, vertices).unwrap();
    for (i, (s, d)) in pairs.iter().enumerate() {
        let mut e = EdgeBuilder::new(*s, *d);
        e.add_property("tag".into(), i as i64);
        eb.add_edge(e).unwrap();
    }
    eb
}

fn tags(chunks: &[Chunk]) -> Vec<Vec<i64>> {
    chunks
        .iter()
        .map(|c| {
            c.columns[0]
                .iter()
                .map(|cell| cell.as_ref().unwrap().as_i64().unwrap())
                .collect()
        })
        .collect()
}

const PAIRS: [(i64, i64); 8] = [
    (5, 0),
    (1, 7),
    (4, 2),
    (1, 3),
    (0, 9),
    (5, 5),
    (1, 0),
    (9, 1),
];

#[test]
fn ordered_by_source_sorts_stably_and_writes_offsets() {
    let info = plain_edge_info(3, 4, 5);
    let chunks = tagged_edges(&info, AdjListType::OrderedBySource, 10, &PAIRS)
        .dump()
        .unwrap();
    assert_eq!(chunks.partitions.len(), 3);
    assert_eq!(
        chunks.partitions[0].rows,
        vec![(0, 9), (1, 7), (1, 3), (1, 0)]
    );
    assert_eq!(chunks.partitions[0].offsets, vec![0, 1, 4, 4, 4]);
    assert_eq!(chunks.partitions[1].rows, vec![(4, 2), (5, 0), (5, 5)]);
    assert_eq!(chunks.partitions[1].offsets, vec![0, 1, 3, 3, 3]);
    assert_eq!(chunks.partitions[2].rows, vec![(9, 1)]);
    assert_eq!(chunks.partitions[2].offsets, vec![0, 0, 1]);
    assert_eq!(
        tags(&chunks.groups[0]),
        vec![vec![4, 1, 3], vec![6, 2, 0], vec![5, 7]]
    );
}

#[test]
fn ordered_by_dest_sorts_by_destination() {
    let info = plain_edge_info(3, 4, 5);
    let chunks = tagged_edges(&info, AdjListType::OrderedByDest, 10, &PAIRS)
        .dump()
        .unwrap();
    assert_eq!(chunks.partitions.len(), 2);
    assert_eq!(
        chunks.partitions[0].rows,
        vec![(5, 0), (1, 0), (9, 1), (4, 2), (1, 3)]
    );
    assert_eq!(chunks.partitions[0].offsets, vec![0, 2, 3, 4, 5, 5]);
    assert_eq!(chunks.partitions[1].rows, vec![(5, 5), (1, 7), (0, 9)]);
    assert_eq!(chunks.partitions[1].offsets, vec![0, 1, 1, 2, 2, 3]);
    assert_eq!(
        tags(&chunks.groups[0]),
        vec![vec![0, 6, 7], vec![2, 3, 5], vec![1, 4]]
    );
}

#[test]
fn unordered_kinds_keep_insertion_order_and_write_no_offsets() {
    let info = plain_edge_info(3, 4, 5);
    let chunks = tagged_edges(&info, AdjListType::UnorderedBySource, 10, &PAIRS)
        .dump()
        .unwrap();
    assert_eq!(chunks.partitions.len(), 3);
    assert_eq!(
        chunks.partitions[0].rows,
        vec![(1, 7), (1, 3), (0, 9), (1, 0)]
    );
    assert_eq!(chunks.partitions[1].rows, vec![(5, 0), (4, 2), (5, 5)]);
    assert_eq!(chunks.partitions[2].rows, vec![(9, 1)]);
    assert!(chunks.partitions.iter().all(|p| p.offsets.is_empty()));
    assert_eq!(
        tags(&chunks.groups[0]),
        vec![vec![1, 3, 4], vec![6, 0, 2], vec![5, 7]]
    );

    let chunks = tagged_edges(&info, AdjListType::UnorderedByDest, 10, &PAIRS)
        .dump()
        .unwrap();
    assert_eq!(chunks.partitions.len(), 2);
    assert_eq!(
        chunks.partitions[0].rows,
        vec![(5, 0), (4, 2), (1, 3), (1, 0), (9, 1)]
    );
    assert_eq!(chunks.partitions[1].rows, vec![(1, 7), (0, 9), (5, 5)]);
}

#[test]
fn edges_builder_validates_kind_and_vertex_count() {
    let info = make_edge_info();
    assert_eq!(
        EdgesBuilder::new(&info, "", AdjListType::OrderedByDest, 2).err(),
        Some(GraphError::SchemaError)
    );
    assert_eq!(
        EdgesBuilder::new(&info, "", AdjListType::OrderedByDest, -2).err(),
        Some(GraphError::SchemaError)
    );
    assert_eq!(
        EdgesBuilder::new(&info, "", AdjListType::OrderedBySource, -2).err(),
        Some(GraphError::OutOfRangeError)
    );
    assert_eq!(
        EdgesBuilder::new(&info, "", AdjListType::OrderedBySource, 0)
            .unwrap()
            .edge_info()
            .edge_type(),
        "knows"
    );
}

#[test]
fn edges_dump_reports_endpoint_out_of_range_first() {
    let info = plain_edge_info(3, 4, 5);
    let mut eb = EdgesBuilder::new(&info, "", AdjListType::OrderedBySource, 3).unwrap();
    eb.add_edge(EdgeBuilder::new(3, 0)).unwrap();
    assert_eq!(eb.dump().err(), Some(GraphError::OutOfRangeError));

    let mut eb = EdgesBuilder::new(&info, "", AdjListType::OrderedBySource, 3).unwrap();
    eb.add_edge(EdgeBuilder::new(-1, 0)).unwrap();
    assert_eq!(eb.dump().err(), Some(GraphError::OutOfRangeError));

    let mut eb = EdgesBuilder::new(&info, "", AdjListType::OrderedBySource, 3).unwrap();
    eb.add_edge(EdgeBuilder::new(2, 100)).unwrap();
    assert_eq!(eb.dump().err(), Some(GraphError::MissingPropertyError));

    let mut eb = EdgesBuilder::new(&info, "", AdjListType::OrderedByDest, 3).unwrap();
    eb.add_edge(EdgeBuilder::new(2, 100)).unwrap();
    assert_eq!(eb.dump().err(), Some(GraphError::OutOfRangeError));

    let mut eb = EdgesBuilder::new(&info, "", AdjListType::UnorderedBySource, 3).unwrap();
    let mut e = EdgeBuilder::new(2, 100);
    e.add_property("tag".into(), true);
    eb.add_edge(e).unwrap();
    assert_eq!(eb.dump().err(), Some(GraphError::TypeMismatchError));
}

#[test]
fn edges_dump_without_vertices_or_edges() {
    let info = plain_edge_info(3, 4, 5);
    let chunks = EdgesBuilder::new(&info, "", AdjListType::OrderedBySource, 0)
        .unwrap()
        .dump()
        .unwrap();
    assert!(chunks.partitions.is_empty());
    assert!(chunks.groups[0].is_empty());

    let chunks = EdgesBuilder::new(&info, "", AdjListType::OrderedBySource, 5)
        .unwrap()
        .dump()
        .unwrap();
    assert_eq!(chunks.partitions.len(), 2);
    assert_eq!(chunks.partitions[0].offsets, vec![0, 0, 0, 0, 0]);
    assert_eq!(chunks.partitions[1].offsets, vec![0, 0]);
    assert!(chunks.partitions[0].rows.is_empty());
}

#[test]
fn edge_builder_getters() {
    let mut e = EdgeBuilder::new(3, 4);
    e.set("w", Value::Int32(1));
    assert_eq!(e.src_id(), 3);
    assert_eq!(e.dst_id(), 4);
    assert_eq!(e.record().get("w").unwrap().as_i32(), Ok(1));
}

#[test]
fn lists_are_set_from_vectors() {
    let mut v = VertexBuilder::new();
    v.add_property("scores".into(), vec![3_i64, 1, 2]);
    v.add_property("names".into(), vec!["a".to_string(), "b".to_string()]);
    v.add_property("nested".into(), vec![vec![true], vec![], vec![false, true]]);
    v.add_property("none".into(), Vec::<i32>::new());
    let scores = v.record().get("scores").unwrap().as_list().unwrap();
    let scores: Vec<i64> = scores.iter().map(|s| s.as_i64().unwrap()).collect();
    assert_eq!(scores, vec![3, 1, 2]);
    let names = v.record().get("names").unwrap().as_list().unwrap();
    assert_eq!(names[1].as_string(), Ok("b".to_string()));
    let nested = v.record().get("nested").unwrap();
    assert!(nested.has_type(&DataType::list(&DataType::list(&DataType::bool()))));
    let inner = nested.as_list().unwrap()[2].as_list().unwrap();
    assert_eq!(inner[0].as_bool(), Ok(false));
    assert_eq!(inner[1].as_bool(), Ok(true));
    assert!(v.record().get("none").unwrap().as_list().unwrap().is_empty());
    let mut e = EdgeBuilder::new(0, 0);
    e.add_property("path".into(), vec![1_i32, 2]);
    assert!(e
        .record()
        .get("path")
        .unwrap()
        .has_type(&DataType::list(&DataType::int32())));
}
