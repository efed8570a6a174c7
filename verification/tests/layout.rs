use graphar::graph_info::{
    AdjListType, AdjacentList, Cardinality, DataType, FileType, Property, PropertyGroup,
    PropertyVec,
};
use graphar::layout::{
    adj_list_chunk_path, adjacency_chunk, adjacency_chunk_count, edge_dir, offset_chunk_path,
    property_chunk_path, vertex_count_path,
};
use graphar::text::{chunk_path, push_decimal, str_eq};

fn group(prefix: &str, file_type: FileType) -> PropertyGroup {
    let mut props = PropertyVec::new();
    props.add_property(Property::new(
        "id",
        &DataType::int64(),
        true,
        false,
        Cardinality::Single,
    ));
    PropertyGroup::new(props, file_type, prefix).unwrap()
}

#[test]
fn decimal_numerals() {
    for n in [0_u64, 7, 10, 42, 100, 909, 12345678901234567890, u64::MAX] {
        let mut out = String::from("n=");
        push_decimal(&mut out, n);
        assert_eq!(out, format!("n={}", n));
    }
}

#[test]
fn strings_are_compared_by_content() {
    assert!(str_eq("", ""));
    assert!(str_eq("name", "name"));
    assert!(!str_eq("name", "names"));
    assert!(!str_eq("name", "nam"));
    assert!(!str_eq("name", "nome"));
    assert!(str_eq("größe", "größe"));
    assert!(!str_eq("große", "größe"));
}

#[test]
fn vertex_files_lie_under_the_group_prefix() {
    assert_eq!(vertex_count_path("person"), "person/vertex_count");
    assert_eq!(
        property_chunk_path("person", &group("id", FileType::Parquet), 0),
        "person/id/chunk_0.parquet"
    );
    assert_eq!(
        property_chunk_path("/data/person", &group("name_age", FileType::Csv), 12),
        "/data/person/name_age/chunk_12.csv"
    );
    assert_eq!(chunk_path("a", "b", 3, "orc"), "a/b/chunk_3.orc");
}

#[test]
fn edge_files_lie_under_the_adjacency_kind() {
    assert_eq!(edge_dir("person", "knows", "person"), "person_knows_person");
    let list = AdjacentList::new(AdjListType::OrderedBySource, FileType::Orc, "x/");
    assert_eq!(
        adj_list_chunk_path("person_knows_person", &list, 2, 10),
        "person_knows_person/ordered_by_source/adj_list/part_2/chunk_10.orc"
    );
    assert_eq!(
        offset_chunk_path("person_knows_person", &list, 0, 0),
        "person_knows_person/ordered_by_source/offset/part_0/chunk_0.orc"
    );
    let list = AdjacentList::new(AdjListType::UnorderedByDest, FileType::Json, "");
    assert_eq!(
        adj_list_chunk_path("e", &list, 1, 1),
        "e/unordered_by_dest/adj_list/part_1/chunk_1.json"
    );
    assert_eq!(
        property_chunk_path("person_knows_person", &group("creationDate", FileType::Csv), 4),
        "person_knows_person/creationDate/chunk_4.csv"
    );
}

#[test]
fn adjacency_rows_are_cut_every_chunk_size_rows() {
    let rows: Vec<(i64, i64)> = (0..7).map(|i| (i, 10 * i)).collect();
    assert_eq!(adjacency_chunk_count(&rows, 3), 3);
    assert_eq!(adjacency_chunk(&rows, 3, 0), vec![(0, 0), (1, 10), (2, 20)]);
    assert_eq!(adjacency_chunk(&rows, 3, 1), vec![(3, 30), (4, 40), (5, 50)]);
    assert_eq!(adjacency_chunk(&rows, 3, 2), vec![(6, 60)]);
    assert_eq!(adjacency_chunk(&rows, 3, 3), vec![]);
    assert_eq!(adjacency_chunk_count(&rows, 7), 1);
    assert_eq!(adjacency_chunk(&rows, 7, 0), rows);
    assert_eq!(adjacency_chunk_count(&rows, 100), 1);
    assert_eq!(adjacency_chunk_count(&Vec::new(), 4), 0);
    assert_eq!(adjacency_chunk_count(&rows, 1), 7);
    assert_eq!(adjacency_chunk(&rows, 1, 6), vec![(6, 60)]);
}
