use graphar::chunk::{Chunk, VertexChunks};
use graphar::error::GraphError;
use graphar::graph_builder::{VertexBuilder, VerticesBuilder};
use graphar::graph_info::{
    Cardinality, DataType, FileType, GraphInfo, InfoVersion, Property, PropertyGroup,
    PropertyGroupVector, PropertyVec, VertexInfo,
};
use graphar::graph_reader::Vertices;
use graphar::value::Value;

fn person_info(chunk_size: i64) -> VertexInfo {
    let mut ids = PropertyVec::new();
    ids.add_property(Property::new(
        "id",
        &DataType::int64(),
        true,
        false,
        Cardinality::Single,
    ));
    let mut rest = PropertyVec::new();
    rest.add_property(Property::new(
        "name",
        &DataType::string(),
        false,
        false,
        Cardinality::Single,
    ));
    rest.add_property(Property::new(
        "age",
        &DataType::int64(),
        false,
        true,
        Cardinality::Single,
    ));
    let mut pgv = PropertyGroupVector::new();
    pgv.add_property_group(PropertyGroup::new(ids, FileType::Csv, "id/").unwrap());
    pgv.add_property_group(PropertyGroup::new(rest, FileType::Csv, "name_age/").unwrap());
    VertexInfo::new(
        "person".into(),
        chunk_size,
        pgv,
        vec![],
        "vertex/person/",
        InfoVersion::new(1).unwrap(),
    )
    .unwrap()
}

fn graph_of(info: &VertexInfo) -> GraphInfo {
    GraphInfo::new(
        "modern_graph",
        &vec![info.clone()],
        &Vec::new(),
        &Vec::new(),
        "",
        Some(InfoVersion::new(1).unwrap()),
    )
    .unwrap()
}

fn modern_persons(info: &VertexInfo) -> VertexChunks {
    let mut vb = VerticesBuilder::new(info, "", 0).unwrap();
    for (id, name, age) in [
        (2_i64, "vadas", Some(27_i64)),
        (6, "peter", Some(35)),
        (4, "josh", Some(32)),
        (1, "marko", None),
    ] {
        let mut v = VertexBuilder::new();
        v.add_property("id".into(), id);
        v.add_property("name".into(), name.to_string());
        if let Some(age) = age {
            v.add_property("age".into(), age);
        }
        vb.add_vertex(v).unwrap();
    }
    vb.dump().unwrap()
}

fn named(count: i64, start: i64, chunk_size: i64) -> (VertexInfo, VertexChunks) {
    let mut props = PropertyVec::new();
    props.add_property(Property::new(
        "name",
        &DataType::string(),
        false,
        false,
        Cardinality::Single,
    ));
    let mut pgv = PropertyGroupVector::new();
    pgv.add_property_group(PropertyGroup::new(props, FileType::Csv, "name/").unwrap());
    let vi = VertexInfo::new(
        "person".into(),
        chunk_size,
        pgv,
        vec![],
        "",
        InfoVersion::new(1).unwrap(),
    )
    .unwrap();
    let mut vb = VerticesBuilder::new(&vi, "root", start).unwrap();
    for i in 0..count {
        let mut v = VertexBuilder::new();
        v.add_property("name".into(), format!("name of {}", start + i));
        vb.add_vertex(v).unwrap();
    }
    let chunks = vb.dump().unwrap();
    (vi, chunks)
}

#[test]
fn vertices_iterate_and_read_properties_modern_graph() {
    let info = person_info(3);
    let gi = graph_of(&info);

    let vertices = Vertices::new(&gi, "person", modern_persons(&info)).unwrap();
    assert!(!vertices.is_empty());
    assert_eq!(vertices.len(), 4);

    let mut iter = vertices.begin();
    let mut names: Vec<String> = Vec::new();
    for _ in 0..4 {
        names.push(iter.vertex().property::<String>("name").unwrap());
        iter.next();
    }
    assert_eq!(names, vec!["vadas", "peter", "josh", "marko"]);

    let iter = vertices.begin();
    let v0 = iter.vertex();
    assert!(v0.is_valid("age"));
    let id0 = v0.property::<i64>("id").unwrap();
    let age0 = v0.property::<i64>("age").unwrap();
    let name0 = v0.property::<String>("name").unwrap();
    assert_eq!(id0, 2);
    assert_eq!(age0, 27);
    assert_eq!(name0, "vadas");

    let found = vertices.find(2);
    let name2 = found.property::<String>("name").unwrap();
    let id2 = found.property::<i64>("id").unwrap();
    assert_eq!(name2, "josh");
    assert_eq!(id2, 4);

    let mut it = vertices.begin();
    for _ in 0..vertices.len() {
        it.next();
    }
    let end = vertices.end();
    assert!(it == end);
}

#[test]
fn test_vertices() {
    let info = person_info(100);
    let graph_info = graph_of(&info);
    let vertex_infos = graph_info.vertex_infos();
    assert_eq!(vertex_infos.len(), 1);

    for v_info in vertex_infos.iter() {
        let vertices = Vertices::new(&graph_info, &v_info.ty(), modern_persons(&info)).unwrap();

        assert!(!vertices.is_empty());
    }
}

#[test]
fn parquet_vertices_loader_smoke() {
    let info = person_info(100);
    let graph_info = graph_of(&info);

    let vertices = Vertices::new(&graph_info, "person", modern_persons(&info)).unwrap();
    assert!(!vertices.is_empty());
}

#[test]
fn ten_vertices_in_chunks_of_four_are_found_by_id() {
    let (info, chunks) = named(10, 0, 4);
    let sizes: Vec<usize> = chunks.groups[0].iter().map(|c| c.columns[0].len()).collect();
    assert_eq!(sizes, vec![4, 4, 2]);
    let vertices = Vertices::open(&info, chunks);
    assert_eq!(vertices.len(), 10);
    let found = vertices.find(9);
    assert_eq!(found.id(), 9);
    assert_eq!(found.chunk_index(), Ok(2));
    assert_eq!(found.row_offset(), Ok(1));
    assert_eq!(found.property::<String>("name"), Ok("name of 9".to_string()));
    for id in 0..10 {
        assert_eq!(
            vertices.find(id).property::<String>("name"),
            Ok(format!("name of {}", id))
        );
    }
}

#[test]
fn vertices_written_from_a_later_chunk_are_found_by_id() {
    let (info, chunks) = named(7, 8, 4);
    assert_eq!(chunks.first_chunk, 2);
    let vertices = Vertices::open(&info, chunks);
    assert_eq!(vertices.len(), 7);
    for id in 8..15 {
        assert_eq!(
            vertices.find(id).property::<String>("name"),
            Ok(format!("name of {}", id))
        );
    }
    assert_eq!(
        vertices.find(7).property::<String>("name"),
        Err(GraphError::IOError)
    );
    assert_eq!(
        vertices.find(15).property::<String>("name"),
        Err(GraphError::OutOfRangeError)
    );
    assert_eq!(
        vertices.find(16).property::<String>("name"),
        Err(GraphError::IOError)
    );
}

#[test]
fn start_that_is_no_multiple_of_the_chunk_size_shifts_rows() {
    let (info, chunks) = named(3, 2, 4);
    let vertices = Vertices::open(&info, chunks);
    assert_eq!(
        vertices.find(2).property::<String>("name"),
        Ok("name of 4".to_string())
    );
}

#[test]
fn access_errors_are_told_apart() {
    let info = person_info(3);
    let vertices = Vertices::open(&info, modern_persons(&info));
    let end = vertices.end();
    assert_eq!(end.id(), 4);
    assert!(end.is_end());
    assert_eq!(end.property::<i64>("id"), Err(GraphError::OutOfRangeError));
    assert_eq!(
        vertices.find(-1).property::<i64>("id"),
        Err(GraphError::OutOfRangeError)
    );
    assert_eq!(
        vertices.find(-1).chunk_index(),
        Err(GraphError::OutOfRangeError)
    );
    assert_eq!(
        vertices.find(-1).row_offset(),
        Err(GraphError::OutOfRangeError)
    );
    assert_eq!(
        vertices.find(6).property::<i64>("id"),
        Err(GraphError::IOError)
    );
    assert_eq!(
        vertices.find(0).property::<i64>("salary"),
        Err(GraphError::MissingPropertyError)
    );
    assert_eq!(
        vertices.find(3).property::<i64>("age"),
        Err(GraphError::MissingPropertyError)
    );
    assert!(!vertices.find(3).vertex().is_valid("age"));
    assert!(!vertices.find(3).vertex().is_valid("salary"));
    assert!(vertices.find(3).vertex().is_valid("name"));
    assert_eq!(
        vertices.find(0).property::<i32>("id"),
        Err(GraphError::TypeMismatchError)
    );
    assert_eq!(
        vertices.find(0).property::<String>("age"),
        Err(GraphError::TypeMismatchError)
    );
    assert_eq!(
        vertices.find(0).property::<bool>("name"),
        Err(GraphError::TypeMismatchError)
    );
    assert_eq!(vertices.find(1).vertex().id(), 1);
    assert_eq!(
        vertices
            .find(1)
            .property::<Value>("age")
            .unwrap()
            .as_i64(),
        Ok(35)
    );
    assert_eq!(
        vertices.cell(2, "name").unwrap().unwrap().as_string(),
        Ok("josh".to_string())
    );
    assert!(vertices.find(3).cell("age").unwrap().is_none());
}

#[test]
fn chunks_of_the_wrong_shape_fail_the_access_only() {
    let info = person_info(2);
    let one = |v: i64| Some(Value::Int64(v));
    let chunks = VertexChunks {
        count: 4,
        first_chunk: 0,
        groups: vec![
            vec![
                Chunk {
                    columns: vec![vec![one(10), one(11)]],
                },
                Chunk { columns: vec![] },
            ],
        ],
        labels: vec![],
    };
    let vertices = Vertices::open(&info, chunks);
    assert_eq!(vertices.len(), 4);
    assert_eq!(vertices.find(1).property::<i64>("id"), Ok(11));
    assert_eq!(
        vertices.find(2).property::<i64>("id"),
        Err(GraphError::IOError)
    );
    assert_eq!(
        vertices.find(1).property::<String>("name"),
        Err(GraphError::IOError)
    );
    assert_eq!(vertices.vertex_info().chunk_size(), 2);
}

#[test]
fn vertices_of_an_undeclared_type_are_refused() {
    let info = person_info(3);
    let gi = graph_of(&info);
    let r = Vertices::new(&gi, "software", modern_persons(&info));
    assert_eq!(r.err(), Some(GraphError::SchemaError));
}

#[test]
fn vertex_iterator_moves_by_one_and_stops_at_the_largest_id() {
    let info = person_info(3);
    let vertices = Vertices::open(&info, modern_persons(&info));
    let mut it = vertices.begin();
    assert_eq!(it.id(), 0);
    assert!(!it.is_end());
    it.next();
    assert_eq!(it.id(), 1);
    assert!(it == vertices.find(1));
    assert!(it != vertices.find(2));
    let mut last = vertices.find(i64::MAX);
    last.next();
    assert_eq!(last.id(), i64::MAX);
    let mut count = 0;
    let mut it = vertices.begin();
    while it != vertices.end() {
        count += 1;
        it.next();
    }
    assert_eq!(count, vertices.len());
}

#[test]
fn typed_read_is_checked_against_the_declared_type() {
    let info = person_info(2);
    let one = |v: i64| Some(Value::Int64(v));
    let chunks = VertexChunks {
        count: 2,
        first_chunk: 0,
        groups: vec![
            vec![Chunk {
                columns: vec![vec![Some(Value::Int32(7)), one(11)]],
            }],
            vec![Chunk {
                columns: vec![
                    vec![Some(Value::String("a".into())), Some(Value::Bool(true))],
                    vec![one(30), None],
                ],
            }],
        ],
        labels: vec![],
    };
    let vertices = Vertices::open(&info, chunks);
    // Declared as int64: reading as i32 fails whatever the chunk holds.
    assert_eq!(
        vertices.find(0).property::<i32>("id"),
        Err(GraphError::TypeMismatchError)
    );
    // Declared as int64 and read as i64, but the chunk holds another variant.
    assert_eq!(
        vertices.find(0).property::<i64>("id"),
        Err(GraphError::TypeMismatchError)
    );
    assert_eq!(vertices.find(1).property::<i64>("id"), Ok(11));
    assert_eq!(
        vertices.find(1).property::<String>("name"),
        Err(GraphError::TypeMismatchError)
    );
    assert_eq!(
        vertices.find(1).property::<bool>("name"),
        Err(GraphError::TypeMismatchError)
    );
    assert_eq!(
        vertices.find(1).property::<Value>("name").unwrap().as_bool(),
        Ok(true)
    );
    assert_eq!(
        vertices.find(1).property::<bool>("age"),
        Err(GraphError::TypeMismatchError)
    );
    assert_eq!(
        vertices.find(1).property::<i64>("age"),
        Err(GraphError::MissingPropertyError)
    );
    assert_eq!(
        vertices.find(5).property::<bool>("age"),
        Err(GraphError::IOError)
    );
}

#[test]
fn chunks_can_be_supplied_one_at_a_time() {
    let (info, full) = named(10, 0, 4);
    let empty = VertexChunks {
        count: full.count,
        first_chunk: 0,
        groups: vec![],
        labels: vec![],
    };
    let mut vertices = Vertices::open(&info, empty);
    assert_eq!(vertices.len(), 10);
    assert_eq!(vertices.needed_chunk(9, "name"), Ok((0, 2)));
    assert_eq!(vertices.needed_chunk(3, "name"), Ok((0, 0)));
    assert_eq!(
        vertices.needed_chunk(3, "age"),
        Err(GraphError::MissingPropertyError)
    );
    assert_eq!(
        vertices.needed_chunk(-3, "name"),
        Err(GraphError::OutOfRangeError)
    );
    assert!(!vertices.has_chunk(0, 2));
    assert_eq!(
        vertices.find(9).property::<String>("name"),
        Err(GraphError::IOError)
    );

    let mut spare = full.groups.into_iter().next().unwrap();
    let last = spare.pop().unwrap();
    assert_eq!(vertices.supply(0, 2, last), Ok(()));
    assert!(vertices.has_chunk(0, 2));
    assert!(!vertices.has_chunk(0, 1));
    assert!(!vertices.has_chunk(0, 3));
    assert!(!vertices.has_chunk(1, 0));
    assert_eq!(
        vertices.find(9).property::<String>("name"),
        Ok("name of 9".to_string())
    );
    assert_eq!(
        vertices.find(8).property::<String>("name"),
        Ok("name of 8".to_string())
    );
    assert_eq!(
        vertices.find(7).property::<String>("name"),
        Err(GraphError::IOError)
    );

    let first = spare.remove(0);
    assert_eq!(vertices.supply(0, 0, first), Ok(()));
    assert_eq!(vertices.release(0, 2), Ok(()));
    assert!(vertices.has_chunk(0, 0));
    assert!(!vertices.has_chunk(0, 2));
    assert_eq!(
        vertices.find(0).property::<String>("name"),
        Ok("name of 0".to_string())
    );
    assert_eq!(
        vertices.find(9).property::<String>("name"),
        Err(GraphError::IOError)
    );

    assert_eq!(
        vertices.supply(1, 0, Chunk { columns: vec![] }),
        Err(GraphError::OutOfRangeError)
    );
    assert_eq!(vertices.release(4, 0), Err(GraphError::OutOfRangeError));
}

#[test]
fn chunks_before_the_first_one_do_not_fit() {
    let (info, full) = named(3, 8, 4);
    let mut vertices = Vertices::open(
        &info,
        VertexChunks {
            count: 3,
            first_chunk: 2,
            groups: vec![],
            labels: vec![],
        },
    );
    let mut chunks = full.groups.into_iter().next().unwrap();
    assert_eq!(
        vertices.supply(0, 1, Chunk { columns: vec![] }),
        Err(GraphError::OutOfRangeError)
    );
    assert!(!vertices.has_chunk(0, 1));
    assert_eq!(vertices.needed_chunk(9, "name"), Ok((0, 2)));
    assert_eq!(vertices.supply(0, 2, chunks.remove(0)), Ok(()));
    assert_eq!(
        vertices.find(10).property::<String>("name"),
        Ok("name of 10".to_string())
    );
}

#[test]
fn next_vertex_hands_out_each_vertex_once() {
    let info = person_info(3);
    let vertices = Vertices::open(&info, modern_persons(&info));
    let mut it = vertices.begin();
    let mut names = Vec::new();
    let mut ids = Vec::new();
    while let Some(v) = it.next_vertex() {
        ids.push(v.id());
        names.push(v.property::<String>("name").unwrap());
    }
    assert_eq!(ids, vec![0, 1, 2, 3]);
    assert_eq!(names, vec!["vadas", "peter", "josh", "marko"]);
    assert!(it == vertices.end());
    assert!(it.next_vertex().is_none());
    assert_eq!(it.id(), 4);
}
