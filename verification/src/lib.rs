use vstd::prelude::*;

pub mod command;
pub mod completer;
pub mod conjunction;
pub mod disjunction;
pub mod errors;
pub mod graph;
pub mod jsondoc;
pub mod jsonqueryparser;
pub mod matcher;
pub mod nodesearch;

use crate::errors::ParseError;
use crate::graph::AnnoGraph;
use crate::jsondoc::json_doc;
use crate::jsonqueryparser::{parse, spec_parse};
use crate::matcher::{disjunction_matches, distinct_tuples, match_disjunction, tuples_view};

verus! {

/// Parses a query and matches it against one corpus: the caller-facing
/// composition of the parser and the evaluator.
pub fn run_query(g: &AnnoGraph, query: &str) -> (r: Result<Vec<Vec<u64>>, ParseError>)
    requires
        g@.wf(),
    ensures
        (match (r, spec_parse(json_doc(query@))) {
            (Ok(ts), Ok(m)) => (forall|t: Seq<u64>|
                #![trigger tuples_view(ts@).contains(t)]
                tuples_view(ts@).contains(t) <==> disjunction_matches(g@, m, t))
                && distinct_tuples(tuples_view(ts@)),
            (Err(e1), Err(e2)) => e1 == e2,
            _ => false,
        }),
{
    match parse(query) {
        Ok(d) => Ok(match_disjunction(g, &d)),
        Err(e) => Err(e),
    }
}

} // verus!
