use vstd::prelude::*;

verus! {

/// Errors from building query structures through the direct API.
#[derive(Clone, Copy, Debug, PartialEq, Eq, Structural)]
pub enum QueryError {
    /// A regular-expression pattern handed to a spec constructor does not compile.
    InvalidPattern,
    /// A constraint references a node position that was never assigned.
    InvalidPosition,
    /// A disjunction was built from an empty collection of conjunctions.
    EmptyDisjunction,
}

/// Errors from translating an external query document into a `Disjunction`.
#[derive(Clone, Copy, Debug, PartialEq, Eq, Structural)]
pub enum ParseError {
    /// The query text is not a well-formed document.
    InvalidJson,
    /// The top-level `alternatives` field is missing or not a sequence.
    MissingAlternatives,
    /// The `alternatives` sequence is empty, so the query has no valid alternative.
    EmptyQuery,
    /// An alternative declares no node at all.
    EmptyAlternative,
    /// A node entry carries no annotation constraint this engine can translate.
    UnsupportedNodeSpec,
    /// An annotation constraint declares an unknown text-matching mode.
    UnsupportedMatchMode,
    /// A join entry is structurally malformed.
    InvalidConstraint,
    /// A join names a structural operator this engine does not know.
    UnsupportedOperator,
    /// A join references a node identifier that no node entry declares.
    UnknownNodeReference,
    /// A regular-expression pattern in the query does not compile.
    InvalidPattern,
}

} // verus!
