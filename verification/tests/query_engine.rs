use annis_query::conjunction::{Conjunction, Constraint};
use annis_query::disjunction::Disjunction;
use annis_query::errors::{ParseError, QueryError};
use annis_query::graph::{AnnoGraph, Annotation, BinaryOperator};
use annis_query::matcher::{match_conjunction, match_disjunction};
use annis_query::nodesearch::NodeSearchSpec;
use annis_query::run_query;

fn anno(namespace: Option<&str>, name: &str, value: &str) -> Annotation {
    Annotation {
        namespace: namespace.map(|s| s.to_string()),
        name: name.to_string(),
        value: value.to_string(),
    }
}

/// A corpus with nodes 1: pos=noun, 2: pos=verb, 3: pos=noun.
fn pos_corpus() -> AnnoGraph {
    let mut g = AnnoGraph::new();
    assert!(g.add_node(1, vec![anno(None, "pos", "noun")]));
    assert!(g.add_node(2, vec![anno(None, "pos", "verb")]));
    assert!(g.add_node(3, vec![anno(None, "pos", "noun")]));
    g
}

#[test]
fn exact_search_returns_matching_nodes_in_ascending_order() {
    let g = pos_corpus();
    let spec = NodeSearchSpec::new_exact(None, "pos".to_string(), Some("noun".to_string()));
    let found = annis_query::graph::find_candidates(&g, &spec);
    assert_eq!(found, vec![1, 3]);
}

#[test]
fn exact_search_without_value_is_an_existence_check() {
    let g = pos_corpus();
    let spec = NodeSearchSpec::new_exact(None, "pos".to_string(), None);
    assert_eq!(annis_query::graph::find_candidates(&g, &spec), vec![1, 2, 3]);
    let other = NodeSearchSpec::new_exact(None, "lemma".to_string(), None);
    assert_eq!(annis_query::graph::find_candidates(&g, &other), Vec::<u64>::new());
}

#[test]
fn exact_search_respects_namespaces() {
    let mut g = AnnoGraph::new();
    assert!(g.add_node(7, vec![anno(Some("tiger"), "pos", "noun")]));
    assert!(g.add_node(9, vec![anno(None, "pos", "noun")]));
    let with_ns =
        NodeSearchSpec::new_exact(Some("tiger".to_string()), "pos".to_string(), Some("noun".to_string()));
    assert_eq!(annis_query::graph::find_candidates(&g, &with_ns), vec![7]);
    let without_ns = NodeSearchSpec::new_exact(None, "pos".to_string(), Some("noun".to_string()));
    assert_eq!(annis_query::graph::find_candidates(&g, &without_ns), vec![7, 9]);
}

#[test]
fn regex_search_matches_whole_values_only() {
    let g = pos_corpus();
    let full = NodeSearchSpec::new_regex(None, "pos".to_string(), "n.*".to_string()).unwrap();
    assert_eq!(annis_query::graph::find_candidates(&g, &full), vec![1, 3]);
    // A pattern matching only part of the value must not select the node.
    let partial = NodeSearchSpec::new_regex(None, "pos".to_string(), "nou".to_string()).unwrap();
    assert_eq!(annis_query::graph::find_candidates(&g, &partial), Vec::<u64>::new());
    let alternation =
        NodeSearchSpec::new_regex(None, "pos".to_string(), "noun|verb".to_string()).unwrap();
    assert_eq!(annis_query::graph::find_candidates(&g, &alternation), vec![1, 2, 3]);
}

#[test]
fn invalid_regex_pattern_fails_at_construction() {
    let r = NodeSearchSpec::new_regex(None, "pos".to_string(), "[".to_string());
    assert_eq!(r, Err(QueryError::InvalidPattern));
}

#[test]
fn add_constraint_rejects_unassigned_positions() {
    let mut c = Conjunction::new();
    let p0 = c.add_node(NodeSearchSpec::new_exact(None, "pos".to_string(), None));
    assert_eq!(p0, 0);
    assert_eq!(
        c.add_constraint(0, 1, BinaryOperator::Dominance),
        Err(QueryError::InvalidPosition)
    );
    let p1 = c.add_node(NodeSearchSpec::new_exact(None, "pos".to_string(), None));
    assert_eq!(p1, 1);
    assert_eq!(c.add_constraint(0, 1, BinaryOperator::Dominance), Ok(()));
}

#[test]
fn empty_disjunction_is_refused() {
    assert!(matches!(Disjunction::new(Vec::new()), Err(QueryError::EmptyDisjunction)));
}

#[test]
fn two_node_join_equals_filtered_cross_product() {
    let mut g = AnnoGraph::new();
    assert!(g.add_node(1, vec![anno(None, "pos", "noun")]));
    assert!(g.add_node(2, vec![anno(None, "pos", "verb")]));
    assert!(g.add_node(3, vec![anno(None, "pos", "noun")]));
    assert!(g.add_node(4, vec![anno(None, "pos", "verb")]));
    g.add_edge(BinaryOperator::Dominance, 1, 2);
    g.add_edge(BinaryOperator::Dominance, 3, 2);
    g.add_edge(BinaryOperator::Precedence, 1, 4);

    let mut c = Conjunction::new();
    let a = c.add_node(NodeSearchSpec::new_exact(None, "pos".to_string(), Some("noun".to_string())));
    let b = c.add_node(NodeSearchSpec::new_exact(None, "pos".to_string(), Some("verb".to_string())));
    c.add_constraint(a, b, BinaryOperator::Dominance).unwrap();

    // Reference oracle: the naive cross product of both candidate sets,
    // filtered by the constraint predicate.
    let cands_a = vec![1u64, 3];
    let cands_b = vec![2u64, 4];
    let mut expected: Vec<Vec<u64>> = Vec::new();
    for x in &cands_a {
        for y in &cands_b {
            if g.has_edge(BinaryOperator::Dominance, *x, *y) {
                expected.push(vec![*x, *y]);
            }
        }
    }
    assert_eq!(expected, vec![vec![1, 2], vec![3, 2]]);
    assert_eq!(match_conjunction(&g, &c), expected);
}

#[test]
fn unconstrained_positions_cross_join() {
    let g = pos_corpus();
    let mut c = Conjunction::new();
    c.add_node(NodeSearchSpec::new_exact(None, "pos".to_string(), Some("noun".to_string())));
    c.add_node(NodeSearchSpec::new_exact(None, "pos".to_string(), Some("verb".to_string())));
    assert_eq!(match_conjunction(&g, &c), vec![vec![1, 2], vec![3, 2]]);
}

#[test]
fn disjunction_output_has_no_duplicates() {
    let g = pos_corpus();
    let mut c1 = Conjunction::new();
    c1.add_node(NodeSearchSpec::new_exact(None, "pos".to_string(), Some("noun".to_string())));
    let mut c2 = Conjunction::new();
    c2.add_node(NodeSearchSpec::new_exact(None, "pos".to_string(), Some("noun".to_string())));
    let mut c3 = Conjunction::new();
    c3.add_node(NodeSearchSpec::new_exact(None, "pos".to_string(), None));
    let d = Disjunction::new(vec![c1, c2, c3]).unwrap();
    let out = match_disjunction(&g, &d);
    assert_eq!(out, vec![vec![1], vec![3], vec![2]]);
    for i in 0..out.len() {
        for j in 0..out.len() {
            if i != j {
                assert_ne!(out[i], out[j]);
            }
        }
    }
}

#[test]
fn run_query_finds_nouns() {
    let g = pos_corpus();
    let query = r#"{"alternatives": [{"nodes": {"1": {"nodeAnnotations": [
        {"name": "pos", "value": "noun", "textMatching": "EXACT_EQUAL"}]}}}]}"#;
    let out = run_query(&g, query).unwrap();
    assert_eq!(out, vec![vec![1], vec![3]]);
}

#[test]
fn run_query_joins_two_nodes() {
    let mut g = AnnoGraph::new();
    assert!(g.add_node(1, vec![anno(None, "pos", "noun")]));
    assert!(g.add_node(2, vec![anno(None, "pos", "verb")]));
    assert!(g.add_node(3, vec![anno(None, "pos", "noun")]));
    g.add_edge(BinaryOperator::Dominance, 1, 2);
    let query = r#"{"alternatives": [{"nodes": {
        "1": {"nodeAnnotations": [{"name": "pos", "value": "noun", "textMatching": "EXACT_EQUAL"}]},
        "2": {"nodeAnnotations": [{"name": "pos", "value": "verb", "textMatching": "EXACT_EQUAL"}]}},
        "joins": [{"op": "Dominance", "left": "1", "right": "2"}]}]}"#;
    let out = run_query(&g, query).unwrap();
    assert_eq!(out, vec![vec![1, 2]]);
}

#[test]
fn constraint_values_survive_construction() {
    let c = Constraint { pos_a: 0, pos_b: 1, op: BinaryOperator::Overlap };
    assert_eq!(c.pos_a, 0);
    assert_eq!(c.pos_b, 1);
    assert_eq!(c.op, BinaryOperator::Overlap);
}

#[test]
fn add_node_refuses_out_of_order_identifiers() {
    let mut g = AnnoGraph::new();
    assert!(g.add_node(5, vec![]));
    assert!(!g.add_node(5, vec![]));
    assert!(!g.add_node(3, vec![]));
    assert!(g.add_node(6, vec![]));
}
