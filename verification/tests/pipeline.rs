use std::collections::HashSet;

use meetgraph::dot::export_dot;
use meetgraph::dot::export_graph_to_dot;
use meetgraph::dot::generate_graph;
use meetgraph::extract::CellValue;
use meetgraph::extract::ExtractError;
use meetgraph::extract::GraphNode;
use meetgraph::extract::QueryRow;
use meetgraph::extract::parse_all_relations;
use meetgraph::extract::parse_relation;
use meetgraph::import::ImportError;
use meetgraph::import::import_csv;
use meetgraph::import::merge_pairs;
use meetgraph::import::met_pairs;
use meetgraph::import::parse_row;
use meetgraph::import::plan_import;

fn strings(cells: &[&str]) -> Vec<String> {
    cells.iter().map(|s| s.to_string()).collect()
}

fn node(props: &[(&str, &str)]) -> CellValue {
    CellValue::Node(GraphNode {
        properties: props.iter().map(|(k, v)| (k.to_string(), v.to_string())).collect(),
    })
}

fn row(cells: Vec<(String, CellValue)>) -> QueryRow {
    QueryRow { cells }
}

#[test]
fn parse_row_reads_event_and_attendees() {
    let r = parse_row(&strings(&["x", "y", "z", "Meetup1", "Alice", "Bob", "Carol"])).unwrap();
    assert_eq!(r.event, Some("Meetup1".to_string()));
    assert_eq!(r.attendees, strings(&["Alice", "Bob", "Carol"]));
}

#[test]
fn parse_row_empty_event_is_absent() {
    let r = parse_row(&strings(&["_", "_", "_", "", "Bob", "Dana"])).unwrap();
    assert_eq!(r.event, None);
    assert_eq!(r.attendees, strings(&["Bob", "Dana"]));
}

#[test]
fn parse_row_stops_at_first_empty_cell() {
    let r = parse_row(&strings(&["_", "_", "_", "E", "Alice", "", "Carol"])).unwrap();
    assert_eq!(r.attendees, strings(&["Alice"]));
}

#[test]
fn parse_row_short_record_is_malformed() {
    let r = parse_row(&strings(&["a", "b", "c"]));
    assert!(matches!(r, Err(ImportError::MalformedRecord)));
}

#[test]
fn parse_row_four_columns_has_no_attendees() {
    let r = parse_row(&strings(&["a", "b", "c", "E"])).unwrap();
    assert_eq!(r.attendees, Vec::<String>::new());
}

#[test]
fn expander_emits_all_pairs_in_order() {
    let pairs = met_pairs(&strings(&["Alice", "Bob", "Carol"]));
    assert_eq!(
        pairs,
        vec![
            ("alice".to_string(), "bob".to_string()),
            ("alice".to_string(), "carol".to_string()),
            ("bob".to_string(), "carol".to_string()),
        ]
    );
}

#[test]
fn expander_count_is_choose_two() {
    assert_eq!(met_pairs(&strings(&[])).len(), 0);
    assert_eq!(met_pairs(&strings(&["Solo"])).len(), 0);
    assert_eq!(met_pairs(&strings(&["A", "B"])).len(), 1);
    let pairs = met_pairs(&strings(&["A", "B", "C", "D"]));
    assert_eq!(pairs.len(), 6);
    let distinct: HashSet<(String, String)> = pairs.into_iter().collect();
    assert_eq!(distinct.len(), 6);
}

#[test]
fn merge_filter_drops_self_pairs() {
    let pairs = met_pairs(&strings(&["Alice", "alice", "Bob"]));
    assert_eq!(pairs.len(), 3);
    let kept = merge_pairs(&pairs);
    assert_eq!(
        kept,
        vec![
            ("alice".to_string(), "bob".to_string()),
            ("alice".to_string(), "bob".to_string()),
        ]
    );
}

#[test]
fn extractor_skips_non_node_values() {
    let r = row(vec![
        ("a".to_string(), CellValue::Scalar),
        ("b".to_string(), node(&[("name", "alice")])),
        ("c".to_string(), CellValue::Relationship),
        ("d".to_string(), node(&[("age", "30"), ("name", "bob")])),
        ("e".to_string(), CellValue::Other),
    ]);
    assert_eq!(parse_all_relations(&r).unwrap(), strings(&["alice", "bob"]));
}

#[test]
fn extractor_empty_for_row_without_nodes() {
    let r = row(vec![
        ("a".to_string(), CellValue::Scalar),
        ("b".to_string(), CellValue::Other),
    ]);
    assert_eq!(parse_all_relations(&r).unwrap(), Vec::<String>::new());
}

#[test]
fn extractor_fails_on_nameless_node() {
    let r = row(vec![
        ("a".to_string(), node(&[("name", "alice")])),
        ("b".to_string(), node(&[("age", "30")])),
    ]);
    assert_eq!(parse_all_relations(&r), Err(ExtractError::MissingProperty));
}

#[test]
fn relation_reads_n_and_m() {
    let r = row(vec![
        ("n".to_string(), node(&[("name", "alice")])),
        ("m".to_string(), node(&[("name", "bob")])),
    ]);
    assert_eq!(parse_relation(&r).unwrap(), ("alice".to_string(), "bob".to_string()));
}

#[test]
fn relation_missing_column() {
    let r = row(vec![("n".to_string(), node(&[("name", "alice")]))]);
    assert_eq!(parse_relation(&r), Err(ExtractError::MissingColumn));
    let s = row(vec![
        ("n".to_string(), node(&[("name", "alice")])),
        ("m".to_string(), CellValue::Scalar),
    ]);
    assert_eq!(parse_relation(&s), Err(ExtractError::MissingColumn));
}

#[test]
fn relation_missing_name_property() {
    let r = row(vec![
        ("n".to_string(), node(&[("name", "alice")])),
        ("m".to_string(), node(&[])),
    ]);
    assert_eq!(parse_relation(&r), Err(ExtractError::MissingProperty));
}

#[test]
fn extraction_error_messages() {
    assert_eq!(ExtractError::MissingProperty.message(), "node without a name property");
    assert_eq!(ExtractError::MissingColumn.message(), "missing node column");
}

#[test]
fn serializer_exact_document() {
    let groups = vec![strings(&["a", "b"]), strings(&["c"])];
    assert_eq!(
        export_dot(&groups),
        "strict graph meetup_graph {\nlayout=circo\nsize=\"60,60\"\noneblock=true\n\"A\" -- \"B\"\n\"C\"\n}"
    );
}

#[test]
fn serializer_keeps_duplicates_and_order() {
    let groups = vec![strings(&["a", "b"]), strings(&["a", "b"])];
    assert_eq!(
        export_dot(&groups),
        "strict graph meetup_graph {\nlayout=circo\nsize=\"60,60\"\noneblock=true\n\"A\" -- \"B\"\n\"A\" -- \"B\"\n}"
    );
}

#[test]
fn serializer_degenerate_groups_keep_lines() {
    let groups = vec![Vec::<String>::new(), strings(&["x"])];
    assert_eq!(
        export_dot(&groups),
        "strict graph meetup_graph {\nlayout=circo\nsize=\"60,60\"\noneblock=true\n\n\"X\"\n}"
    );
}

#[test]
fn generate_graph_describes_all_rows() {
    let rows = vec![
        row(vec![
            ("n".to_string(), node(&[("name", "alice")])),
            ("m".to_string(), node(&[("name", "bob")])),
        ]),
        row(vec![("n".to_string(), node(&[("name", "carol")]))]),
    ];
    assert_eq!(
        generate_graph(&rows).unwrap(),
        "strict graph meetup_graph {\nlayout=circo\nsize=\"60,60\"\noneblock=true\n\"ALICE\" -- \"BOB\"\n\"CAROL\"\n}"
    );
}

#[test]
fn generate_graph_aborts_whole_request() {
    let rows = vec![
        row(vec![("n".to_string(), node(&[("name", "alice")]))]),
        row(vec![("n".to_string(), node(&[("age", "30")]))]),
    ];
    assert_eq!(generate_graph(&rows), Err(ExtractError::MissingProperty));
}

#[test]
fn export_graph_pairs_rows() {
    let rows = vec![
        row(vec![
            ("n".to_string(), node(&[("name", "alice")])),
            ("m".to_string(), node(&[("name", "bob")])),
        ]),
        row(vec![
            ("n".to_string(), node(&[("name", "bob")])),
            ("m".to_string(), node(&[("name", "dana")])),
        ]),
    ];
    assert_eq!(
        export_graph_to_dot(&rows).unwrap(),
        "strict graph meetup_graph {\nlayout=circo\nsize=\"60,60\"\noneblock=true\n\"ALICE\" -- \"BOB\"\n\"BOB\" -- \"DANA\"\n}"
    );
}

#[test]
fn import_csv_expands_batch() {
    let data = b"c1,c2,c3,event,p1,p2,p3\n_,_,_,Meetup1,Alice,Bob,Carol\n_,_,_,,Bob,Dana,\n"
        .to_vec();
    let groups = import_csv(&data).unwrap();
    assert_eq!(
        groups,
        vec![
            vec![
                ("alice".to_string(), "bob".to_string()),
                ("alice".to_string(), "carol".to_string()),
                ("bob".to_string(), "carol".to_string()),
            ],
            vec![("bob".to_string(), "dana".to_string())],
        ]
    );
}

#[test]
fn import_csv_rejects_ragged_input() {
    let data = b"c1,c2,c3\nonly,one\n".to_vec();
    assert_eq!(import_csv(&data), Err(ImportError::InvalidInput));
}

#[test]
fn plan_import_rejects_short_record() {
    let records = vec![strings(&["_", "_", "_", "E", "A", "B"]), strings(&["a", "b"])];
    assert_eq!(plan_import(&records), Err(ImportError::MalformedRecord));
}

#[test]
fn end_to_end_edges_and_bob_subgraph() {
    let rows = vec![
        strings(&["_", "_", "_", "Meetup1", "Alice", "Bob", "Carol"]),
        strings(&["_", "_", "_", "", "Bob", "Dana"]),
    ];
    let mut edges: HashSet<(String, String)> = HashSet::new();
    for r in &rows {
        let rec = parse_row(r).unwrap();
        for (a, b) in met_pairs(&rec.attendees) {
            let edge = if a <= b { (a, b) } else { (b, a) };
            edges.insert(edge);
        }
    }
    let expect: HashSet<(String, String)> = [
        ("alice", "bob"),
        ("alice", "carol"),
        ("bob", "carol"),
        ("bob", "dana"),
    ]
    .iter()
    .map(|(a, b)| (a.to_string(), b.to_string()))
    .collect();
    assert_eq!(edges, expect);

    let bob_edges: Vec<Vec<String>> = edges
        .iter()
        .filter(|(a, b)| a == "bob" || b == "bob")
        .map(|(a, b)| vec![a.clone(), b.clone()])
        .collect();
    assert_eq!(bob_edges.len(), 3);
    let doc = export_dot(&bob_edges);
    assert_eq!(doc.matches("\"BOB\"").count(), 3);
}
