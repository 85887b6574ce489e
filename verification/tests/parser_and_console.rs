use annis_query::command::{parse_command, select_corpus, Command};
use annis_query::completer::CommandCompleter;
use annis_query::conjunction::Conjunction;
use annis_query::errors::ParseError;
use annis_query::graph::BinaryOperator;
use annis_query::jsonqueryparser::parse;
use annis_query::nodesearch::NodeSearchSpec;

#[test]
fn parse_round_trips_a_directly_built_conjunction() {
    let mut direct = Conjunction::new();
    let a = direct.add_node(NodeSearchSpec::new_exact(
        Some("tiger".to_string()),
        "pos".to_string(),
        Some("noun".to_string()),
    ));
    let b = direct.add_node(NodeSearchSpec::new_exact(None, "lemma".to_string(), None));
    direct.add_constraint(a, b, BinaryOperator::Dominance).unwrap();

    let query = r#"{"alternatives": [{"nodes": {
        "1": {"nodeAnnotations": [{"namespace": "tiger", "name": "pos",
               "value": "noun", "textMatching": "EXACT_EQUAL"}]},
        "2": {"nodeAnnotations": [{"name": "lemma", "textMatching": "EXACT_EQUAL"}]}},
        "joins": [{"op": "Dominance", "left": "1", "right": "2"}]}]}"#;
    let parsed = parse(query).unwrap();
    assert_eq!(parsed.alternatives(), &vec![direct]);
}

#[test]
fn parse_accepts_regex_annotations() {
    let query = r#"{"alternatives": [{"nodes": {
        "n": {"nodeAnnotations": [{"name": "pos", "value": "n.*",
               "textMatching": "REGEXP_EQUAL"}]}}}]}"#;
    let parsed = parse(query).unwrap();
    let mut direct = Conjunction::new();
    direct.add_node(
        NodeSearchSpec::new_regex(None, "pos".to_string(), "n.*".to_string()).unwrap(),
    );
    assert_eq!(parsed.alternatives(), &vec![direct]);
}

#[test]
fn parse_rejects_malformed_text() {
    assert_eq!(parse("{not json"), Err(ParseError::InvalidJson));
}

#[test]
fn parse_rejects_missing_or_malformed_alternatives() {
    assert_eq!(parse(r#"{}"#), Err(ParseError::MissingAlternatives));
    assert_eq!(parse(r#"{"alternatives": 5}"#), Err(ParseError::MissingAlternatives));
    assert_eq!(parse(r#"{"alternatives": []}"#), Err(ParseError::EmptyQuery));
}

#[test]
fn parse_rejects_an_alternative_without_nodes() {
    assert_eq!(
        parse(r#"{"alternatives": [{"nodes": {}}]}"#),
        Err(ParseError::EmptyAlternative)
    );
    assert_eq!(parse(r#"{"alternatives": [{}]}"#), Err(ParseError::EmptyAlternative));
}

#[test]
fn parse_rejects_nodes_without_usable_annotations() {
    assert_eq!(
        parse(r#"{"alternatives": [{"nodes": {"1": {"nodeAnnotations": []}}}]}"#),
        Err(ParseError::UnsupportedNodeSpec)
    );
    assert_eq!(
        parse(r#"{"alternatives": [{"nodes": {"1": {}}}]}"#),
        Err(ParseError::UnsupportedNodeSpec)
    );
    assert_eq!(
        parse(
            r#"{"alternatives": [{"nodes": {"1": {"nodeAnnotations": [
                {"value": "noun", "textMatching": "EXACT_EQUAL"}]}}}]}"#
        ),
        Err(ParseError::UnsupportedNodeSpec)
    );
}

#[test]
fn parse_rejects_unknown_match_modes() {
    assert_eq!(
        parse(
            r#"{"alternatives": [{"nodes": {"1": {"nodeAnnotations": [
                {"name": "pos", "value": "noun", "textMatching": "FUZZY"}]}}}]}"#
        ),
        Err(ParseError::UnsupportedMatchMode)
    );
    assert_eq!(
        parse(
            r#"{"alternatives": [{"nodes": {"1": {"nodeAnnotations": [
                {"name": "pos", "value": "noun"}]}}}]}"#
        ),
        Err(ParseError::UnsupportedMatchMode)
    );
}

#[test]
fn parse_rejects_uncompilable_patterns() {
    assert_eq!(
        parse(
            r#"{"alternatives": [{"nodes": {"1": {"nodeAnnotations": [
                {"name": "pos", "value": "[", "textMatching": "REGEXP_EQUAL"}]}}}]}"#
        ),
        Err(ParseError::InvalidPattern)
    );
}

#[test]
fn parse_rejects_bad_joins() {
    let nodes = r#""nodes": {
        "1": {"nodeAnnotations": [{"name": "pos", "textMatching": "EXACT_EQUAL"}]},
        "2": {"nodeAnnotations": [{"name": "pos", "textMatching": "EXACT_EQUAL"}]}}"#;
    let with = |joins: &str| {
        format!(r#"{{"alternatives": [{{{}, "joins": {}}}]}}"#, nodes, joins)
    };
    assert_eq!(
        parse(&with(r#"[{"op": "Dominance", "left": "1"}]"#)),
        Err(ParseError::InvalidConstraint)
    );
    assert_eq!(parse(&with(r#"7"#)), Err(ParseError::InvalidConstraint));
    assert_eq!(
        parse(&with(r#"[{"op": "Sibling", "left": "1", "right": "2"}]"#)),
        Err(ParseError::UnsupportedOperator)
    );
    assert_eq!(
        parse(&with(r#"[{"op": "Overlap", "left": "1", "right": "9"}]"#)),
        Err(ParseError::UnknownNodeReference)
    );
    assert!(parse(&with(r#"[{"op": "Overlap", "left": "1", "right": "2"}]"#)).is_ok());
}

#[test]
fn parse_tolerates_foreign_value_kinds() {
    // Numbers, booleans and null in unused places are carried through;
    // a numeric annotation value is not a string, so the exact match
    // degrades to an existence check, and null joins mean no constraints.
    let query = r#"{"alternatives": [{"nodes": {
        "1": {"weight": 2.5, "active": true, "parent": null,
              "nodeAnnotations": [{"name": "pos", "value": 3,
                                   "textMatching": "EXACT_EQUAL"}]}},
        "joins": null}], "version": 7}"#;
    let parsed = parse(query).unwrap();
    let mut direct = Conjunction::new();
    direct.add_node(NodeSearchSpec::new_exact(None, "pos".to_string(), None));
    assert_eq!(parsed.alternatives(), &vec![direct]);
}

#[test]
fn completer_offers_commands_by_prefix() {
    let c = CommandCompleter::new();
    let (start, all) = c.complete("", 0);
    assert_eq!(start, 0);
    assert_eq!(all, vec!["corpus", "exit", "import", "list", "quit"]);
    let (_, li) = c.complete("li", 2);
    assert_eq!(li, vec!["list"]);
    let (_, nothing) = c.complete("zz", 2);
    assert_eq!(nothing, Vec::<String>::new());
    // Completion is only offered at the end of the line.
    let (_, mid) = c.complete("li", 1);
    assert_eq!(mid, Vec::<String>::new());
}

#[test]
fn parse_command_splits_at_the_first_space() {
    assert_eq!(
        parse_command("import corpusname /tmp/data"),
        (Command::Import, "corpusname /tmp/data".to_string())
    );
    assert_eq!(parse_command("list"), (Command::List, String::new()));
    assert_eq!(parse_command("corpus x"), (Command::Corpus, "x".to_string()));
    assert_eq!(parse_command("quit"), (Command::Quit, String::new()));
    assert_eq!(parse_command("exit"), (Command::Quit, String::new()));
    assert_eq!(parse_command("frobnicate y"), (Command::Unknown, "y".to_string()));
}

#[test]
fn select_corpus_checks_availability() {
    let available = vec!["demo".to_string(), "tiger".to_string()];
    assert_eq!(select_corpus(&available, ""), Some(None));
    assert_eq!(select_corpus(&available, "tiger"), Some(Some("tiger".to_string())));
    assert_eq!(select_corpus(&available, "missing"), None);
}
