use vstd::prelude::*;

use crate::conjunction::{Conjunction, ConjunctionView};
use crate::errors::QueryError;

verus! {

/// The full query: a set of alternative conjunctions. A query matches when
/// any of its alternatives matches.
#[derive(Debug, PartialEq)]
pub struct Disjunction {
    alternatives: Vec<Conjunction>,
}

impl View for Disjunction {
    type V = Seq<ConjunctionView>;

    closed spec fn view(&self) -> Seq<ConjunctionView> {
        self.alternatives@.map_values(|c: Conjunction| c@)
    }
}

impl Disjunction {
    /// Wraps a non-empty collection of alternatives; an empty collection is
    /// refused, since a query without alternatives is a failure, not a query
    /// with zero results.
    pub fn new(conjunctions: Vec<Conjunction>) -> (r: Result<Disjunction, QueryError>)
        ensures
            r is Ok <==> conjunctions@.len() > 0,
            r matches Ok(d) ==> d@ == conjunctions@.map_values(|c: Conjunction| c@),
            r matches Err(e) ==> e == QueryError::EmptyDisjunction,
    {
        if conjunctions.len() > 0 {
            Ok(Disjunction { alternatives: conjunctions })
        } else {
            Err(QueryError::EmptyDisjunction)
        }
    }

    /// The alternatives, for iteration only.
    pub fn alternatives(&self) -> (r: &Vec<Conjunction>)
        ensures
            r@.map_values(|c: Conjunction| c@) == self@,
    {
        &self.alternatives
    }
}

} // verus!
