use allergy_graph::builder::{create_graph, fits, individual_of};
use allergy_graph::centrality::calculate_centrality;
use allergy_graph::record::{NodeType, Reading, Record};
use petgraph::graph::NodeIndex;

fn reading(value: f64) -> Reading {
    Reading { bits: value.to_bits() }
}

fn get_mock_records() -> Vec<Record> {
    vec![Record {
        subject_id: "205650".to_string(),
        birth_year: 2000,
        gender_factor: "Male".to_string(),
        race_factor: "Race1".to_string(),
        ethnicity_factor: "Ethnicity1".to_string(),
        payer_factor: "Payer1".to_string(),
        atopic_march_cohort: true,
        age_start_years: reading(5.0),
        age_end_years: reading(10.0),
        peanut_alg_start: Some(reading(1.0)),
        peanut_alg_end: Some(reading(2.0)),
        treenut_alg_start: None,
        treenut_alg_end: None,
        walnut_alg_start: None,
        walnut_alg_end: None,
        pecan_alg_start: None,
        pecan_alg_end: None,
        pistach_alg_start: None,
        pistach_alg_end: None,
        almond_alg_start: None,
        almond_alg_end: None,
        brazil_alg_start: None,
        brazil_alg_end: None,
        hazelnut_alg_start: None,
        hazelnut_alg_end: None,
        cashew_alg_start: None,
        cashew_alg_end: None,
    }]
}

fn subject(id: &str, gender: &str, onsets: [Option<f64>; 9]) -> Record {
    Record {
        subject_id: id.to_string(),
        birth_year: 2010,
        gender_factor: gender.to_string(),
        race_factor: "R".to_string(),
        ethnicity_factor: "E".to_string(),
        payer_factor: "P".to_string(),
        atopic_march_cohort: false,
        age_start_years: reading(0.5),
        age_end_years: reading(3.5),
        peanut_alg_start: onsets[0].map(reading),
        peanut_alg_end: None,
        treenut_alg_start: onsets[1].map(reading),
        treenut_alg_end: None,
        walnut_alg_start: onsets[2].map(reading),
        walnut_alg_end: None,
        pecan_alg_start: onsets[3].map(reading),
        pecan_alg_end: None,
        pistach_alg_start: onsets[4].map(reading),
        pistach_alg_end: None,
        almond_alg_start: onsets[5].map(reading),
        almond_alg_end: None,
        brazil_alg_start: onsets[6].map(reading),
        brazil_alg_end: None,
        hazelnut_alg_start: onsets[7].map(reading),
        hazelnut_alg_end: None,
        cashew_alg_start: onsets[8].map(reading),
        cashew_alg_end: None,
    }
}

const NAMES: [&str; 9] = [
    "Peanut",
    "Treenut",
    "Walnut",
    "Pecan",
    "Pistachio",
    "Almond",
    "Brazil",
    "Hazelnut",
    "Cashew",
];

#[test]
fn test_graph_creation() {
    let records = get_mock_records();
    let graph = create_graph(records);
    assert!(graph.node_indices().len() != 0);
}

#[test]
fn test_centrality_calculation() {
    let records = get_mock_records();
    let graph = create_graph(records);
    let report = calculate_centrality(&graph);
    assert_eq!(report.gender.len(), 1);
    assert_eq!(report.gender[0].key, "Male");
    assert_eq!(report.gender[0].total_degree, 1);
    assert_eq!(report.gender[0].members, 1);
    assert_eq!(report.cohort[0].key, "true");
}

#[test]
fn test_allergy_node_creation() {
    let records = get_mock_records();
    let graph = create_graph(records);
    let allergy_nodes = graph
        .node_indices()
        .filter(|&n| matches!(graph[n], NodeType::NutAllergyStatus(_)))
        .count();
    assert!(allergy_nodes > 0);
}

#[test]
fn empty_input_gives_nine_nodes_and_no_edge() {
    let graph = create_graph(Vec::new());
    assert_eq!(graph.node_count(), 9);
    assert_eq!(graph.edge_count(), 0);
}

#[test]
fn category_nodes_come_first_in_the_fixed_order() {
    let graph = create_graph(get_mock_records());
    for (k, name) in NAMES.iter().enumerate() {
        match &graph[NodeIndex::new(k)] {
            NodeType::NutAllergyStatus(found) => assert_eq!(found, name),
            NodeType::Individual(_) => panic!("node {} is no category", k),
        }
    }
}

#[test]
fn nine_category_nodes_whatever_the_records() {
    for count in [0usize, 1, 2, 5, 40] {
        let mut records = Vec::new();
        for j in 0..count {
            let mut onsets = [None; 9];
            onsets[j % 9] = Some(j as f64);
            records.push(subject(&format!("s{}", j), "F", onsets));
        }
        let graph = create_graph(records);
        let categories = graph
            .node_indices()
            .filter(|&n| matches!(graph[n], NodeType::NutAllergyStatus(_)))
            .count();
        assert_eq!(categories, 9);
        assert_eq!(graph.node_count(), 9 + count);
    }
}

#[test]
fn individuals_follow_in_input_order_with_their_attributes() {
    let mut first = get_mock_records();
    first.push(subject("b", "Female", [None; 9]));
    first.push(subject("c", "Other", [None; 9]));
    let graph = create_graph(first);
    assert_eq!(graph.node_count(), 12);
    let expected = [("205650", "Male", true), ("b", "Female", false), ("c", "Other", false)];
    for (j, (id, gender, cohort)) in expected.iter().enumerate() {
        match &graph[NodeIndex::new(9 + j)] {
            NodeType::Individual(individual) => {
                assert_eq!(&individual.id, id);
                assert_eq!(&individual.gender, gender);
                assert_eq!(individual.atopic_march_cohort, *cohort);
            }
            NodeType::NutAllergyStatus(_) => panic!("node {} is no individual", 9 + j),
        }
    }
    match &graph[NodeIndex::new(9)] {
        NodeType::Individual(individual) => {
            assert_eq!(individual.race, "Race1");
            assert_eq!(individual.ethnicity, "Ethnicity1");
            assert_eq!(individual.payer_factor, "Payer1");
        }
        NodeType::NutAllergyStatus(_) => panic!("node 9 is no individual"),
    }
}

#[test]
fn repeated_subject_ids_get_a_node_each() {
    let records = vec![
        subject("same", "F", [Some(1.0), None, None, None, None, None, None, None, None]),
        subject("same", "F", [None, Some(1.0), None, None, None, None, None, None, None]),
    ];
    let graph = create_graph(records);
    assert_eq!(graph.node_count(), 11);
    assert_eq!(graph.edge_count(), 2);
}

#[test]
fn edges_leave_the_individual_in_category_order() {
    let records = vec![
        subject("a", "F", [None, Some(2.0), None, Some(4.0), None, None, None, None, Some(9.0)]),
        subject("b", "M", [Some(0.0), None, None, None, None, None, Some(1.0), None, None]),
    ];
    let graph = create_graph(records);
    let edges: Vec<(usize, usize)> = graph
        .raw_edges()
        .iter()
        .map(|e| (e.source().index(), e.target().index()))
        .collect();
    assert_eq!(edges, vec![(9, 1), (9, 3), (9, 8), (10, 0), (10, 6)]);
}

#[test]
fn an_edge_stands_for_a_present_onset_whatever_its_value() {
    let values = [0.0, -3.5, f64::NAN, f64::INFINITY, 1.0e300, -0.0];
    let mut records = Vec::new();
    for (j, value) in values.iter().enumerate() {
        let mut onsets = [None; 9];
        for k in 0..=j {
            onsets[k] = Some(*value);
        }
        records.push(subject(&format!("s{}", j), "F", onsets));
    }
    let graph = create_graph(records);
    for j in 0..values.len() {
        let node = NodeIndex::new(9 + j);
        assert_eq!(graph.neighbors_undirected(node).count(), j + 1);
        assert_eq!(graph.neighbors(node).count(), j + 1);
    }
}

#[test]
fn degree_of_an_individual_counts_its_present_onsets() {
    let shapes: [[Option<f64>; 9]; 4] = [
        [None; 9],
        [Some(1.0); 9],
        [Some(1.0), None, Some(2.0), None, Some(3.0), None, Some(4.0), None, Some(5.0)],
        [None, None, None, None, None, None, Some(1.0), Some(1.0), None],
    ];
    let records: Vec<Record> =
        shapes.iter().enumerate().map(|(j, s)| subject(&format!("s{}", j), "F", *s)).collect();
    let counts: Vec<usize> = records.iter().map(|r| r.count_onsets()).collect();
    assert_eq!(counts, vec![0, 9, 5, 2]);
    let graph = create_graph(records);
    for (j, count) in counts.iter().enumerate() {
        assert_eq!(graph.neighbors_undirected(NodeIndex::new(9 + j)).count(), *count);
    }
}

#[test]
fn one_record_with_peanut_only() {
    let graph = create_graph(get_mock_records());
    assert_eq!(graph.node_count(), 10);
    assert_eq!(graph.edge_count(), 1);
    assert_eq!(graph.neighbors_undirected(NodeIndex::new(9)).count(), 1);
    let report = calculate_centrality(&graph);
    let degrees: Vec<(&str, usize)> =
        report.allergy.iter().map(|c| (c.name.as_str(), c.degree)).collect();
    assert_eq!(
        degrees,
        vec![
            ("Peanut", 1),
            ("Treenut", 0),
            ("Walnut", 0),
            ("Pecan", 0),
            ("Pistachio", 0),
            ("Almond", 0),
            ("Cashew", 0),
        ]
    );
}

#[test]
fn small_inputs_fit_a_graph() {
    assert!(fits(&Vec::new()));
    assert!(fits(&get_mock_records()));
    let many: Vec<Record> =
        (0..1000).map(|j| subject(&format!("s{}", j), "F", [Some(1.0); 9])).collect();
    assert!(fits(&many));
}

#[test]
fn a_node_copies_the_record_attributes() {
    let records = get_mock_records();
    let individual = individual_of(&records[0]);
    assert_eq!(individual.id, "205650");
    assert_eq!(individual.gender, "Male");
    assert_eq!(individual.race, "Race1");
    assert_eq!(individual.ethnicity, "Ethnicity1");
    assert_eq!(individual.payer_factor, "Payer1");
    assert!(individual.atopic_march_cohort);
}
