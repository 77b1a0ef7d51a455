use osm_admin::bbox::{calculate_bounding_box, BoundingBox};
use osm_admin::element::{elements_are_equal, Element, Member, Node, Relation, Tag, Way};
use osm_admin::error::ErrorKind;
use osm_admin::fields::TableFields;
use osm_admin::record::RelationMemberType;
use osm_admin::export;
use osm_admin::import;
use osm_admin::index::UserIndex;
use osm_admin::join::{NodeRelationsIterator, NodeRelationsReader};
use osm_admin::reader::{TableDef, TableIterator, TableReader};
use osm_admin::sql::parse_sql_bool;
use osm_admin::text::{parse_i64, split_tabs};
use osm_admin::tile::calculate_tile;
use osm_admin::time::{parse_sql_time, to_sql_time, to_sql_time_micro, Timestamp};
use osm_admin::toc::get_table_def_strings;

fn ts(year: u16, month: u8, day: u8, hour: u8, minute: u8, second: u8, micros: u32) -> Timestamp {
    Timestamp::new(year, month, day, hour, minute, second, micros)
}

fn nodes_def() -> TableDef {
    let cols: Vec<String> = [
        "node_id", "latitude", "longitude", "changeset_id", "visible", "\"timestamp\"", "tile",
        "version", "redaction_id",
    ]
    .iter()
    .map(|s| s.to_string())
    .collect();
    TableDef::new("public.nodes".to_string(), "4260.dat".to_string(), &cols).unwrap()
}

fn node_tags_def() -> TableDef {
    let cols: Vec<String> = ["node_id", "version", "k", "v"].iter().map(|s| s.to_string()).collect();
    TableDef::new("public.node_tags".to_string(), "4259.dat".to_string(), &cols).unwrap()
}

#[test]
fn tile_of_the_origin() {
    // The scaled midpoint of both axes is 32768; interleaved, the two high
    // bits of the 32-bit tile are set.
    assert_eq!(calculate_tile(0, 0), 3221225472u64);
}

#[test]
fn tile_is_deterministic() {
    assert_eq!(calculate_tile(515000000, -1257000), calculate_tile(515000000, -1257000));
    assert_eq!(calculate_tile(-900000000, -1800000000), 0);
}

#[test]
fn dedup_last_write_wins() {
    let mut ix = UserIndex::new().unwrap();
    ix.insert(42, "alice".to_string()).unwrap();
    ix.insert(42, "alice2".to_string()).unwrap();
    let entries = ix.entries().unwrap();
    assert_eq!(entries.len(), 1);
    assert_eq!(entries[0].0, 42);
    assert_eq!(entries[0].1, "alice2");
}

#[test]
fn dedup_orders_keys() {
    let mut ix = UserIndex::new().unwrap();
    ix.insert(9, "c".to_string()).unwrap();
    ix.insert(1, "a".to_string()).unwrap();
    ix.insert(5, "b".to_string()).unwrap();
    let entries = ix.entries().unwrap();
    let keys: Vec<i64> = entries.iter().map(|e| e.0).collect();
    assert_eq!(keys, vec![1, 5, 9]);
}

#[test]
fn merge_join_completeness() {
    let node_line = |id: i64| format!("{}\t1\t2\t7\tt\t2020-05-06 07:08:09\t0\t1\t\\N", id);
    let nodes_lines: Vec<String> = vec![node_line(1), node_line(2), node_line(3)];
    let tags_lines: Vec<String> = vec![
        "1\t1\ta\tchildA".to_string(),
        "1\t1\tb\tchildB".to_string(),
        "3\t1\tc\tchildC".to_string(),
    ];
    let reader = NodeRelationsReader::new(&nodes_def(), &node_tags_def()).unwrap();
    let mut it = NodeRelationsIterator::new(&reader, nodes_lines, tags_lines);
    let rels = it.collect_relations();
    assert_eq!(rels.len(), 3);
    assert_eq!(rels[0].node.node_id, 1);
    assert_eq!(rels[0].tags.len(), 2);
    assert_eq!(rels[0].tags[0].v, "childA");
    assert_eq!(rels[0].tags[1].v, "childB");
    assert_eq!(rels[1].node.node_id, 2);
    assert_eq!(rels[1].tags.len(), 0);
    assert_eq!(rels[2].node.node_id, 3);
    assert_eq!(rels[2].tags.len(), 1);
    assert_eq!(rels[2].tags[0].v, "childC");
}

#[test]
fn boolean_decode() {
    assert_eq!(parse_sql_bool("t").unwrap(), true);
    assert_eq!(parse_sql_bool("f").unwrap(), false);
    assert!(parse_sql_bool("true").is_err());
    assert!(parse_sql_bool("").is_err());
    assert!(parse_sql_bool("T").is_err());
}

#[test]
fn reader_skips_malformed_rows() {
    // Ten rows, one with a boolean the decoder rejects: nine records come
    // out and the pass continues.
    let mut lines: Vec<String> = Vec::new();
    for i in 0..10i64 {
        let flag = if i == 4 { "x" } else { "t" };
        lines.push(format!("{}\t1\t2\t7\t{}\t2020-05-06 07:08:09\t0\t1\t\\N", i + 1, flag));
    }
    let reader = TableReader::new(&nodes_def()).unwrap();
    let mut it = TableIterator::new(&reader, lines);
    let records = it.collect_records();
    assert_eq!(records.len(), 9);
}

#[test]
fn reader_stops_at_sentinel() {
    let lines: Vec<String> = vec![
        "1\t1\t2\t7\tt\t2020-05-06 07:08:09\t0\t1\t\\N".to_string(),
        "\\.".to_string(),
        "2\t1\t2\t7\tt\t2020-05-06 07:08:09\t0\t1\t\\N".to_string(),
    ];
    let reader = TableReader::new(&nodes_def()).unwrap();
    let mut it = TableIterator::new(&reader, lines);
    let records = it.collect_records();
    assert_eq!(records.len(), 1);
}

#[test]
fn toc_extraction() {
    let mut toc: Vec<u8> = Vec::new();
    toc.extend_from_slice(&[1u8, 2, 3]);
    toc.extend_from_slice(b"COPY public.nodes (id, lat, lon) FROM stdin;");
    toc.extend_from_slice(&[0u8, 9]);
    toc.extend_from_slice(b"4260.dat");
    toc.extend_from_slice(&[7u8]);
    let pairs = get_table_def_strings(&toc).unwrap();
    assert_eq!(pairs.len(), 1);
    assert_eq!(pairs[0].0, "public.nodes (id, lat, lon)");
    assert_eq!(pairs[0].1, "4260.dat");
}

#[test]
fn timestamp_round_trip() {
    let t = ts(2020, 5, 6, 7, 8, 9, 123456);
    assert_eq!(to_sql_time(&t), "2020-05-06 07:08:09");
    assert_eq!(to_sql_time_micro(&t), "2020-05-06 07:08:09.123456");
    assert_eq!(parse_sql_time("2020-05-06 07:08:09.123456").unwrap(), t);
    let t0 = ts(2020, 5, 6, 7, 8, 9, 0);
    assert_eq!(parse_sql_time("2020-05-06 07:08:09").unwrap(), t0);
    assert!(parse_sql_time("2020-13-06 07:08:09").is_err());
    assert!(parse_sql_time("not a time").is_err());
}

#[test]
fn integer_decode() {
    assert_eq!(parse_i64("0"), Some(0));
    assert_eq!(parse_i64("-42"), Some(-42));
    assert_eq!(parse_i64("9223372036854775807"), Some(i64::MAX));
    assert_eq!(parse_i64("-9223372036854775808"), Some(i64::MIN));
    assert_eq!(parse_i64("9223372036854775808"), None);
    assert_eq!(parse_i64("\\N"), None);
    assert_eq!(parse_i64(""), None);
}

#[test]
fn tab_split() {
    let parts = split_tabs("a\tb\t\tc");
    assert_eq!(parts, vec!["a", "b", "", "c"]);
}

fn sample_node() -> Node {
    Node {
        id: 101,
        lat_dm: 515000000,
        lon_dm: -1257000,
        timestamp: ts(2020, 5, 6, 7, 8, 9, 0),
        changeset: 7,
        uid: 42,
        user: "alice".to_string(),
        visible: true,
        version: 3,
        tags: vec![
            Tag { k: "highway".to_string(), v: "bus_stop".to_string() },
            Tag { k: "name".to_string(), v: "Stop_3".to_string() },
        ],
    }
}

fn push_copy_directive(toc: &mut Vec<u8>, def: &str, file: &str) {
    toc.extend_from_slice(b"COPY ");
    toc.extend_from_slice(def.as_bytes());
    toc.extend_from_slice(b" FROM stdin;\n");
    toc.extend_from_slice(file.as_bytes());
    toc.extend_from_slice(b"\n");
}

fn table_file(rows: &Vec<String>) -> String {
    let mut s = String::new();
    for row in rows {
        s.push_str(row);
        s.push('\n');
    }
    s.push_str("\\.\n");
    s
}

#[test]
fn round_trip_through_both_passes() {
    // Convert a node, a way and a relation to dump rows, then read the rows
    // back as an element stream: all three and the terminal sentinel come
    // out intact.
    let node = sample_node();
    let way = Way {
        id: 201,
        timestamp: ts(2020, 5, 6, 7, 8, 10, 0),
        changeset: 7,
        uid: 42,
        user: "alice".to_string(),
        visible: true,
        version: 2,
        tags: vec![Tag { k: "highway".to_string(), v: "residential".to_string() }],
        refs: vec![101, 102],
    };
    let relation = Relation {
        id: 301,
        timestamp: ts(2020, 5, 6, 7, 8, 11, 0),
        changeset: 7,
        uid: 42,
        user: "alice".to_string(),
        visible: true,
        version: 1,
        tags: vec![Tag { k: "type".to_string(), v: "route".to_string() }],
        members: vec![
            Member {
                member_type: RelationMemberType::Node,
                member_id: 101,
                member_role: "stop".to_string(),
            },
            Member {
                member_type: RelationMemberType::Way,
                member_id: 201,
                member_role: "".to_string(),
            },
        ],
    };
    let input = vec![
        Element::Node { node: node.clone() },
        Element::Way { way: way.clone() },
        Element::Relation { relation: relation.clone() },
    ];
    let now = ts(2021, 1, 2, 3, 4, 5, 0);
    let writers = import::generate(&input, &now).unwrap();

    let mut toc: Vec<u8> = Vec::new();
    push_copy_directive(
        &mut toc,
        "public.nodes (node_id, latitude, longitude, changeset_id, visible, \"timestamp\", tile, version, redaction_id)",
        "4260.dat",
    );
    push_copy_directive(&mut toc, "public.node_tags (node_id, version, k, v)", "4259.dat");
    push_copy_directive(
        &mut toc,
        "public.ways (way_id, changeset_id, \"timestamp\", version, visible, redaction_id)",
        "4294.dat",
    );
    push_copy_directive(
        &mut toc,
        "public.way_nodes (way_id, node_id, version, sequence_id)",
        "4292.dat",
    );
    push_copy_directive(&mut toc, "public.way_tags (way_id, k, v, version)", "4293.dat");
    push_copy_directive(
        &mut toc,
        "public.relations (relation_id, changeset_id, \"timestamp\", version, visible, redaction_id)",
        "4279.dat",
    );
    push_copy_directive(
        &mut toc,
        "public.relation_members (relation_id, member_type, member_id, member_role, version, sequence_id)",
        "4277.dat",
    );
    push_copy_directive(
        &mut toc,
        "public.relation_tags (relation_id, k, v, version)",
        "4278.dat",
    );
    push_copy_directive(
        &mut toc,
        "public.changesets (id, user_id, created_at, min_lat, max_lat, min_lon, max_lon, closed_at, num_changes)",
        "4222.dat",
    );
    push_copy_directive(
        &mut toc,
        "public.users (email, id, pass_crypt, creation_time, display_name, data_public, description, home_lat, home_lon, home_zoom, pass_salt, email_valid, new_email, creation_ip, languages, status, terms_agreed, consider_pd, auth_uid, preferred_editor, terms_seen, description_format, changesets_count, traces_count, diary_entries_count, image_use_gravatar, auth_provider, home_tile, tou_agreed)",
        "4290.dat",
    );
    let files: Vec<(String, String)> = vec![
        ("4260.dat".to_string(), table_file(&writers.nodes)),
        ("4259.dat".to_string(), table_file(&writers.node_tags)),
        ("4294.dat".to_string(), table_file(&writers.ways)),
        ("4292.dat".to_string(), table_file(&writers.way_nodes)),
        ("4293.dat".to_string(), table_file(&writers.way_tags)),
        ("4279.dat".to_string(), table_file(&writers.relations)),
        ("4277.dat".to_string(), table_file(&writers.relation_members)),
        ("4278.dat".to_string(), table_file(&writers.relation_tags)),
        ("4222.dat".to_string(), table_file(&writers.changesets)),
        ("4290.dat".to_string(), table_file(&writers.users)),
    ];
    let elements = export::generate(&toc, &files).unwrap();
    assert_eq!(elements.len(), 4);
    assert!(elements_are_equal(&input[0], &elements[0]));
    assert!(elements_are_equal(&input[1], &elements[1]));
    assert!(elements_are_equal(&input[2], &elements[2]));
    assert!(elements_are_equal(&elements[3], &Element::Sentinel));
}

#[test]
fn errors_name_the_offender() {
    let e = parse_sql_bool("x").unwrap_err();
    assert_eq!(e.message, "wrong boolean literal: x");
    assert_eq!(e.kind, ErrorKind::Structure);
    let e = RelationMemberType::try_from("boundary").unwrap_err();
    assert_eq!(e.message, "unknown relation member type: boundary");
    let cols: Vec<String> = ["node_id", "latitude"].iter().map(|s| s.to_string()).collect();
    let e = TableFields::new("public.nodes", &cols).unwrap_err();
    assert!(e.message.starts_with("missing column: "));
    let e = TableFields::new("public.bogus", &cols).unwrap_err();
    assert_eq!(e.message, "unknown table name: public.bogus");
}

#[test]
fn export_rejects_unsorted_nodes() {
    let node_line = |id: i64| format!("{}\t1\t2\t7\tt\t2020-05-06 07:08:09\t0\t1\t\\N", id);
    let mut toc: Vec<u8> = Vec::new();
    push_copy_directive(
        &mut toc,
        "public.nodes (node_id, latitude, longitude, changeset_id, visible, \"timestamp\", tile, version, redaction_id)",
        "4260.dat",
    );
    // archives whose tables cannot all be located fail structurally too
    let files: Vec<(String, String)> = vec![
        ("4260.dat".to_string(), format!("{}\n{}\n\\.\n", node_line(2), node_line(1))),
    ];
    let e = export::generate(&toc, &files).unwrap_err();
    assert_eq!(e.kind, ErrorKind::Structure);
}

#[test]
fn bounding_box_of_leading_visible_nodes() {
    let mut a = sample_node();
    a.lat_dm = 10;
    a.lon_dm = -20;
    let mut b = sample_node();
    b.lat_dm = -30;
    b.lon_dm = 40;
    let mut hidden = sample_node();
    hidden.visible = false;
    hidden.lat_dm = 1000;
    hidden.lon_dm = 1000;
    let els = vec![
        Element::Node { node: a },
        Element::Node { node: hidden },
        Element::Node { node: b },
        Element::Sentinel,
    ];
    let bb = calculate_bounding_box(true, None, &els).unwrap();
    assert_eq!(bb, BoundingBox { left: -20, bottom: -30, right: 40, top: 10 });
    let given = BoundingBox { left: 1, bottom: 2, right: 3, top: 4 };
    assert_eq!(calculate_bounding_box(false, Some(given), &els), Some(given));
}
