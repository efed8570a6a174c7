use graphar::chunk::{EdgeChunks, EdgePartition};
use graphar::error::GraphError;
use graphar::graph_builder::{EdgeBuilder, EdgesBuilder};
use graphar::graph_info::{
    AdjListType, AdjacentList, AdjacentListVector, Cardinality, DataType, EdgeInfo, FileType,
    GraphInfo, InfoVersion, Property, PropertyGroup, PropertyGroupVector, PropertyVec,
    VertexInfo,
};
use graphar::graph_reader::Edges;

fn person_info() -> VertexInfo {
    VertexInfo::new(
        "person".into(),
        50,
        PropertyGroupVector::new(),
        vec![],
        "vertex/person/",
        InfoVersion::new(1).unwrap(),
    )
    .unwrap()
}

fn knows_info(chunk_size: i64, vertex_chunk: i64) -> EdgeInfo {
    let mut adjs = AdjacentListVector::new();
    for kind in [
        AdjListType::OrderedBySource,
        AdjListType::OrderedByDest,
        AdjListType::UnorderedBySource,
    ] {
        adjs.add_adjacent_list(AdjacentList::new(kind, FileType::Csv, kind.name()));
    }
    let mut props = PropertyVec::new();
    props.add_property(Property::new(
        "creationDate",
        &DataType::string(),
        false,
        false,
        Cardinality::Single,
    ));
    props.add_property(Property::new(
        "weight",
        &DataType::int64(),
        false,
        true,
        Cardinality::Single,
    ));
    let mut groups = PropertyGroupVector::new();
    groups.add_property_group(PropertyGroup::new(props, FileType::Csv, "creationDate/").unwrap());
    EdgeInfo::new(
        "person",
        "knows",
        "person",
        chunk_size,
        vertex_chunk,
        vertex_chunk,
        true,
        adjs,
        groups,
        "edge/person_knows_person/",
        InfoVersion::new(1).unwrap(),
    )
    .unwrap()
}

fn graph_of(edge: &EdgeInfo) -> GraphInfo {
    GraphInfo::new(
        "ldbc_sample",
        &vec![person_info()],
        &vec![edge.clone()],
        &Vec::new(),
        "",
        Some(InfoVersion::new(1).unwrap()),
    )
    .unwrap()
}

fn dump(info: &EdgeInfo, kind: AdjListType, vertices: i64, pairs: &[(i64, i64)]) -> EdgeChunks {
    let mut eb = EdgesBuilder::new(info, "", kind, vertices).unwrap();
    for (i, (s, d)) in pairs.iter().enumerate() {
        let mut e = EdgeBuilder::new(*s, *d);
        e.add_property("creationDate".into(), format!("day {}", i));
        if i % 2 == 0 {
            e.add_property("weight".into(), i as i64);
        }
        eb.add_edge(e).unwrap();
    }
    eb.dump().unwrap()
}

const SAMPLE: [(i64, i64); 9] = [
    (60, 87),
    (0, 87),
    (3, 1),
    (0, 2),
    (99, 0),
    (3, 87),
    (0, 60),
    (60, 3),
    (3, 3),
];

#[test]
fn edges_iterate_and_properties() {
    let info = knows_info(4, 50);
    let graph_info = graph_of(&info);

    let edges = Edges::new(
        &graph_info,
        "person",
        "knows",
        "person",
        AdjListType::OrderedBySource,
        None,
        dump(&info, AdjListType::OrderedBySource, 100, &SAMPLE),
    )
    .unwrap();

    assert!(!edges.is_empty());
    assert!(edges.len() > 0);
    let mut begin = edges.begin();
    assert!(!begin.is_end());

    let creation_date = begin.property::<String>("creationDate").unwrap();
    assert!(!creation_date.is_empty());

    let _ = begin.source();
    let _ = begin.destination();
    begin.next();
    let _ = begin.source();
    let _ = begin.destination();

    assert!(begin.next_src_with_id(0));
    assert_eq!(begin.source(), Ok(0));
    assert!(begin.next_dst_with_id(87));
    assert_eq!(begin.destination(), Ok(87));

    assert!(begin.global_chunk_index() >= 0);
    assert!(begin.cur_offset() >= 0);

    let end = edges.end();
    let begin_for_find = edges.begin();
    let found_src0 = edges.find_src(0, &begin_for_find);
    let found_dst87 = edges.find_dst(87, &begin_for_find);
    assert!(found_src0 != end);
    assert!(found_dst87 != end);

    let edges_small = Edges::new(
        &graph_info,
        "person",
        "knows",
        "person",
        AdjListType::OrderedBySource,
        Some(0..1),
        dump(&info, AdjListType::OrderedBySource, 100, &SAMPLE),
    )
    .unwrap();
    assert!(edges_small.len() > 0);
    assert!(edges_small.len() < edges.len());
}

#[test]
fn edges_ordered_by_dest() {
    let info = knows_info(4, 50);
    let gi = graph_of(&info);

    let edges = Edges::new(
        &gi,
        "person",
        "knows",
        "person",
        AdjListType::OrderedByDest,
        None,
        dump(&info, AdjListType::OrderedByDest, 100, &SAMPLE),
    )
    .unwrap();

    assert!(!edges.is_empty());
    let mut it = edges.begin();
    assert!(!it.is_end());
    assert!(!it.property::<String>("creationDate").unwrap().is_empty());
    it.next();
    let _ = it.source();
    let _ = it.destination();
}

fn walk(edges: &Edges) -> Vec<(i64, i64, String)> {
    let mut out = Vec::new();
    let mut it = edges.begin();
    while it != edges.end() {
        out.push((
            it.source().unwrap(),
            it.destination().unwrap(),
            it.property::<String>("creationDate").unwrap(),
        ));
        it.next();
    }
    out
}

#[test]
fn iteration_crosses_partitions_in_sorted_order() {
    let info = knows_info(4, 50);
    let edges = Edges::open(
        &info,
        AdjListType::OrderedBySource,
        None,
        dump(&info, AdjListType::OrderedBySource, 100, &SAMPLE),
    )
    .unwrap();
    assert_eq!(edges.len(), 9);
    let rows = walk(&edges);
    let expected = vec![
        (0, 87, "day 1"),
        (0, 2, "day 3"),
        (0, 60, "day 6"),
        (3, 1, "day 2"),
        (3, 87, "day 5"),
        (3, 3, "day 8"),
        (60, 87, "day 0"),
        (60, 3, "day 7"),
        (99, 0, "day 4"),
    ];
    assert_eq!(rows.len(), expected.len());
    for (row, want) in rows.iter().zip(expected.iter()) {
        assert_eq!((row.0, row.1, row.2.as_str()), *want);
    }
}

#[test]
fn next_src_with_id_then_next_src_enumerates_the_edges_of_a_source() {
    let info = knows_info(4, 50);
    let edges = Edges::open(
        &info,
        AdjListType::OrderedBySource,
        None,
        dump(&info, AdjListType::OrderedBySource, 100, &SAMPLE),
    )
    .unwrap();
    for source in [0_i64, 3, 60, 99] {
        let expected: Vec<(i64, String)> = SAMPLE
            .iter()
            .enumerate()
            .filter(|(_, (s, _))| *s == source)
            .map(|(i, (_, d))| (*d, format!("day {}", i)))
            .collect();
        let mut it = edges.begin();
        assert!(it.next_src_with_id(source));
        let mut seen = Vec::new();
        loop {
            assert_eq!(it.source(), Ok(source));
            seen.push((
                it.destination().unwrap(),
                it.property::<String>("creationDate").unwrap(),
            ));
            if !it.next_src() {
                break;
            }
        }
        assert_eq!(seen, expected);
        assert!(it.is_end() || it.source().unwrap() != source);
    }
    let mut it = edges.begin();
    assert!(!it.next_src_with_id(1));
    assert!(it.is_end());
    let mut it = edges.begin();
    assert!(!it.next_src_with_id(100));
    assert!(it.is_end());
    let mut it = edges.begin();
    assert!(!it.next_src_with_id(-4));
    assert!(it.is_end());
    assert!(!it.next_src());
    assert!(it.is_end());
}

#[test]
fn next_dst_with_id_then_next_dst_enumerates_the_edges_of_a_destination() {
    let info = knows_info(4, 50);
    let edges = Edges::open(
        &info,
        AdjListType::OrderedByDest,
        None,
        dump(&info, AdjListType::OrderedByDest, 100, &SAMPLE),
    )
    .unwrap();
    for dest in [0_i64, 1, 2, 3, 60, 87] {
        let expected: Vec<i64> = SAMPLE
            .iter()
            .filter(|(_, d)| *d == dest)
            .map(|(s, _)| *s)
            .collect();
        let mut it = edges.begin();
        assert!(it.next_dst_with_id(dest));
        let mut seen = Vec::new();
        loop {
            seen.push(it.source().unwrap());
            if !it.next_dst() {
                break;
            }
        }
        assert_eq!(seen, expected);
    }
}

#[test]
fn searching_at_or_after_a_place_keeps_the_place_inside_a_run() {
    let info = knows_info(4, 50);
    let edges = Edges::open(
        &info,
        AdjListType::OrderedBySource,
        None,
        dump(&info, AdjListType::OrderedBySource, 100, &SAMPLE),
    )
    .unwrap();
    let mut it = edges.begin();
    it.next();
    assert_eq!(it.destination(), Ok(2));
    assert!(it.next_src_with_id(0));
    assert_eq!(it.destination(), Ok(2));
    assert!(it.next_src_with_id(3));
    assert_eq!(it.destination(), Ok(1));
    let anchor = edges.find_src(60, &edges.begin());
    assert_eq!(anchor.destination(), Ok(87));
    assert_eq!(edges.find_src(99, &anchor).destination(), Ok(0));
    assert!(edges.find_src(3, &anchor) == edges.end());
    let mut other = edges.end();
    assert!(other.first_src(&edges.begin(), 3));
    assert_eq!(other.destination(), Ok(1));
    assert!(!other.first_src(&edges.end(), 3));
    assert!(other.is_end());
}

#[test]
fn the_other_endpoint_is_found_by_going_through_the_rows() {
    let info = knows_info(4, 50);
    let edges = Edges::open(
        &info,
        AdjListType::OrderedBySource,
        None,
        dump(&info, AdjListType::OrderedBySource, 100, &SAMPLE),
    )
    .unwrap();
    let mut it = edges.begin();
    assert!(it.next_dst_with_id(87));
    assert_eq!(it.source(), Ok(0));
    assert!(it.next_dst());
    assert_eq!(it.source(), Ok(3));
    assert!(it.next_dst());
    assert_eq!(it.source(), Ok(60));
    assert!(!it.next_dst());
    assert!(it.is_end());
    assert_eq!(edges.find_dst(3, &edges.begin()).source(), Ok(3));
    let mut first = edges.begin();
    assert!(first.first_dst(&edges.begin(), 0));
    assert_eq!(first.source(), Ok(99));
    assert!(!first.first_dst(&edges.begin(), 5));
}

#[test]
fn unordered_edges_are_searched_row_by_row() {
    let info = knows_info(4, 50);
    let edges = Edges::open(
        &info,
        AdjListType::UnorderedBySource,
        None,
        dump(&info, AdjListType::UnorderedBySource, 100, &SAMPLE),
    )
    .unwrap();
    let order: Vec<(i64, i64)> = walk(&edges).iter().map(|r| (r.0, r.1)).collect();
    assert_eq!(
        order,
        vec![
            (0, 87),
            (3, 1),
            (0, 2),
            (3, 87),
            (0, 60),
            (3, 3),
            (60, 87),
            (99, 0),
            (60, 3)
        ]
    );
    let mut it = edges.begin();
    assert!(it.next_src_with_id(3));
    let mut seen = vec![it.destination().unwrap()];
    while it.next_src() {
        seen.push(it.destination().unwrap());
    }
    assert_eq!(seen, vec![1, 87, 3]);
    assert!(it.is_end());
    let mut it = edges.begin();
    assert!(it.next_src_with_id(60));
    assert_eq!(it.destination(), Ok(87));
    assert!(it.next_src());
    assert_eq!(it.destination(), Ok(3));
    assert!(!it.next_src());
}

#[test]
fn restricted_collection_is_no_larger_than_the_whole() {
    let info = knows_info(4, 10);
    let whole = Edges::open(
        &info,
        AdjListType::OrderedBySource,
        None,
        dump(&info, AdjListType::OrderedBySource, 100, &SAMPLE),
    )
    .unwrap();
    assert_eq!(whole.len(), 9);
    for (range, expected) in [
        (0..1, 6_usize),
        (0..6, 6),
        (0..7, 8),
        (6..7, 2),
        (6..10, 3),
        (9..10, 1),
        (1..6, 0),
        (0..10, 9),
        (0..1000, 9),
        (10..1000, 0),
        (500..1000, 0),
        (4..4, 0),
    ] {
        let part = Edges::open(
            &info,
            AdjListType::OrderedBySource,
            Some(range),
            dump(&info, AdjListType::OrderedBySource, 100, &SAMPLE),
        )
        .unwrap();
        assert_eq!(part.len(), expected);
        assert!(part.len() <= whole.len());
        assert_eq!(part.is_empty(), expected == 0);
        assert_eq!(walk(&part).len(), expected);
    }
}

#[test]
fn restricted_collection_starts_in_its_first_partition() {
    let info = knows_info(4, 10);
    let part = Edges::open(
        &info,
        AdjListType::OrderedBySource,
        Some(6..10),
        dump(&info, AdjListType::OrderedBySource, 100, &SAMPLE),
    )
    .unwrap();
    let mut it = part.begin();
    assert_eq!(it.source(), Ok(60));
    assert_eq!(it.property::<String>("creationDate"), Ok("day 0".to_string()));
    assert!(it.next_src_with_id(99));
    assert_eq!(it.property::<String>("creationDate"), Ok("day 4".to_string()));
    it.to_begin();
    assert_eq!(it.destination(), Ok(87));
    assert!(!it.next_src_with_id(3));
}

#[test]
fn opening_checks_schema_and_range() {
    let info = knows_info(4, 50);
    let gi = graph_of(&info);
    let chunks = || dump(&info, AdjListType::OrderedBySource, 100, &SAMPLE);
    let open = |src: &str, kind: AdjListType, range: Option<std::ops::Range<i64>>| {
        Edges::new(&gi, src, "knows", "person", kind, range, chunks()).err()
    };
    assert_eq!(open("person", AdjListType::OrderedBySource, None), None);
    assert_eq!(
        open("animal", AdjListType::OrderedBySource, None),
        Some(GraphError::SchemaError)
    );
    assert_eq!(
        open("person", AdjListType::UnorderedByDest, None),
        Some(GraphError::SchemaError)
    );
    assert_eq!(
        open("person", AdjListType::OrderedBySource, Some(-1..2)),
        Some(GraphError::OutOfRangeError)
    );
    assert_eq!(
        open("person", AdjListType::OrderedBySource, Some(3..2)),
        Some(GraphError::OutOfRangeError)
    );
    assert_eq!(
        open("animal", AdjListType::OrderedBySource, Some(3..2)),
        Some(GraphError::SchemaError)
    );
}

#[test]
fn physical_position_counts_chunks_of_all_partitions() {
    let info = knows_info(2, 50);
    let edges = Edges::open(
        &info,
        AdjListType::OrderedBySource,
        None,
        dump(&info, AdjListType::OrderedBySource, 100, &SAMPLE),
    )
    .unwrap();
    let mut seen = Vec::new();
    let mut it = edges.begin();
    while !it.is_end() {
        seen.push((it.global_chunk_index(), it.cur_offset()));
        it.next();
    }
    assert_eq!(
        seen,
        vec![
            (0, 0),
            (0, 1),
            (1, 0),
            (1, 1),
            (2, 0),
            (2, 1),
            (3, 0),
            (3, 1),
            (4, 0)
        ]
    );
    assert_eq!(it.global_chunk_index(), 5);
    assert_eq!(it.cur_offset(), 0);
    assert_eq!(edges.adj_list_type(), AdjListType::OrderedBySource);
    assert_eq!(edges.edge_info().chunk_size(), 2);
}

#[test]
fn edge_handle_reads_endpoints_and_properties() {
    let info = knows_info(4, 50);
    let edges = Edges::open(
        &info,
        AdjListType::OrderedBySource,
        None,
        dump(&info, AdjListType::OrderedBySource, 100, &SAMPLE),
    )
    .unwrap();
    let mut it = edges.begin();
    let edge = it.edge().unwrap();
    assert_eq!(edge.src(), 0);
    assert_eq!(edge.dst(), 87);
    assert_eq!(edge.property::<String>("creationDate"), Ok("day 1".to_string()));
    assert!(!edge.is_valid("weight"));
    assert!(edge.is_valid("creationDate"));
    assert!(!edge.is_valid("colour"));
    assert_eq!(edge.property::<i64>("weight"), Err(GraphError::MissingPropertyError));
    it.next();
    it.next();
    let edge = it.edge().unwrap();
    assert_eq!(edge.property::<i64>("weight"), Ok(6));
    assert_eq!(edge.property::<i32>("weight"), Err(GraphError::TypeMismatchError));
    assert_eq!(it.property::<i64>("colour"), Err(GraphError::MissingPropertyError));
    assert!(it.cell("weight").unwrap().is_some());
    let end = edges.end();
    assert_eq!(end.edge().err(), Some(GraphError::OutOfRangeError));
    assert_eq!(end.source(), Err(GraphError::OutOfRangeError));
    assert_eq!(end.destination(), Err(GraphError::OutOfRangeError));
    assert_eq!(end.property::<i64>("weight"), Err(GraphError::OutOfRangeError));
}

#[test]
fn tables_that_do_not_fit_the_rows_lead_to_the_end() {
    let info = knows_info(4, 50);
    let chunks = EdgeChunks {
        partitions: vec![EdgePartition {
            rows: vec![(0, 1), (0, 2), (2, 3)],
            offsets: vec![0, 2, 2, 9],
        }],
        groups: vec![],
    };
    let edges = Edges::open(&info, AdjListType::OrderedBySource, None, chunks).unwrap();
    assert_eq!(edges.len(), 3);
    let mut it = edges.begin();
    assert!(it.next_src_with_id(2));
    assert_eq!(it.destination(), Ok(3));
    assert_eq!(it.property::<String>("creationDate"), Err(GraphError::IOError));
    let mut it = edges.begin();
    assert!(!it.next_src_with_id(3));
    assert!(it.is_end());
    let mut it = edges.begin();
    assert!(!it.next_src_with_id(1));
    let mut it = edges.begin();
    assert!(!it.next_src_with_id(70));
}

fn scrambled(count: usize, vertices: i64) -> Vec<(i64, i64)> {
    let mut state: u64 = 0x9e3779b97f4a7c15;
    let mut next = move || {
        state = state.wrapping_mul(6364136223846793005).wrapping_add(1442695040888963407);
        (state >> 33) as i64
    };
    (0..count)
        .map(|_| (next() % vertices, next() % vertices))
        .collect()
}

#[test]
fn ordered_layout_agrees_with_a_stable_sort() {
    for (count, vertices, vertex_chunk, chunk_size) in
        [(200_usize, 37_i64, 5_i64, 7_i64), (64, 8, 8, 3), (33, 100, 1, 1), (50, 3, 10, 100)]
    {
        let pairs = scrambled(count, vertices);
        let info = knows_info(chunk_size, vertex_chunk);
        for (kind, by_source) in [
            (AdjListType::OrderedBySource, true),
            (AdjListType::OrderedByDest, false),
        ] {
            let key = |p: &(i64, i64)| if by_source { p.0 } else { p.1 };
            let mut expected: Vec<(usize, (i64, i64))> = pairs.iter().copied().enumerate().collect();
            expected.sort_by_key(|(_, p)| key(p));
            let edges = Edges::open(&info, kind, None, dump(&info, kind, vertices, &pairs)).unwrap();
            assert_eq!(edges.len(), count);
            let rows = walk(&edges);
            assert_eq!(rows.len(), count);
            for (row, (i, p)) in rows.iter().zip(expected.iter()) {
                assert_eq!((row.0, row.1), *p);
                assert_eq!(row.2, format!("day {}", i));
            }
            for id in 0..vertices {
                let want: Vec<(i64, i64)> =
                    pairs.iter().copied().filter(|p| key(p) == id).collect();
                let mut it = edges.begin();
                let found = if by_source {
                    it.next_src_with_id(id)
                } else {
                    it.next_dst_with_id(id)
                };
                assert_eq!(found, !want.is_empty());
                let mut seen = Vec::new();
                if found {
                    loop {
                        seen.push((it.source().unwrap(), it.destination().unwrap()));
                        let more = if by_source { it.next_src() } else { it.next_dst() };
                        if !more {
                            break;
                        }
                    }
                } else {
                    assert!(it.is_end());
                }
                assert_eq!(seen, want);
            }
        }
    }
}

#[test]
fn every_range_of_partitions_sums_its_rows() {
    let pairs = scrambled(120, 40);
    let info = knows_info(6, 4);
    let chunks = dump(&info, AdjListType::OrderedBySource, 40, &pairs);
    let sizes: Vec<usize> = chunks.partitions.iter().map(|p| p.rows.len()).collect();
    assert_eq!(sizes.len(), 10);
    assert_eq!(sizes.iter().sum::<usize>(), 120);
    for start in 0..12_i64 {
        for end in start..13_i64 {
            let part = Edges::open(
                &info,
                AdjListType::OrderedBySource,
                Some(start..end),
                dump(&info, AdjListType::OrderedBySource, 40, &pairs),
            )
            .unwrap();
            let lo = (start as usize).min(10);
            let hi = (end as usize).min(10);
            assert_eq!(part.len(), sizes[lo..hi].iter().sum::<usize>());
            assert!(part.len() <= 120);
        }
    }
}
