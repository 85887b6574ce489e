use vstd::prelude::*;

use crate::errors::QueryError;
use crate::graph::BinaryOperator;
use crate::nodesearch::{NodeSearchSpec, NodeSearchSpecView};

verus! {

/// A binary structural constraint between two node positions of a
/// conjunction.
#[derive(Debug, Clone, Copy, PartialEq, Eq, Structural)]
pub struct Constraint {
    pub pos_a: usize,
    pub pos_b: usize,
    pub op: BinaryOperator,
}

/// The mathematical shape of one pattern: its node predicates in position
/// order and its constraint set.
pub struct ConjunctionView {
    pub specs: Seq<NodeSearchSpecView>,
    pub constraints: Seq<Constraint>,
}

impl ConjunctionView {
    /// Every constraint references assigned positions, and every node
    /// predicate is well formed.
    pub open spec fn wf(self) -> bool {
        &&& forall|j: int|
            0 <= j < self.constraints.len() ==> (#[trigger] self.constraints[j]).pos_a
                < self.specs.len() && self.constraints[j].pos_b < self.specs.len()
        &&& forall|i: int| 0 <= i < self.specs.len() ==> (#[trigger] self.specs[i]).wf()
    }
}

/// One pattern to match: an ordered, append-only sequence of node predicates
/// plus pairwise constraints between their positions.
#[derive(Debug, Clone, PartialEq)]
pub struct Conjunction {
    specs: Vec<NodeSearchSpec>,
    constraints: Vec<Constraint>,
}

impl View for Conjunction {
    type V = ConjunctionView;

    closed spec fn view(&self) -> ConjunctionView {
        ConjunctionView {
            specs: self.specs@.map_values(|s: NodeSearchSpec| s@),
            constraints: self.constraints@,
        }
    }
}

impl Conjunction {
    /// An empty pattern; nodes are appended one by one while parsing.
    pub fn new() -> (r: Conjunction)
        ensures
            r@.specs.len() == 0,
            r@.constraints.len() == 0,
    {
        Conjunction { specs: Vec::new(), constraints: Vec::new() }
    }

    /// Appends a node predicate and returns its assigned position, which is
    /// stable for the lifetime of the conjunction.
    pub fn add_node(&mut self, spec: NodeSearchSpec) -> (pos: usize)
        ensures
            pos == old(self)@.specs.len(),
            final(self)@.specs == old(self)@.specs.push(spec@),
            final(self)@.constraints == old(self)@.constraints,
    {
        let pos = self.specs.len();
        self.specs.push(spec);
        proof {
            assert(self@.specs =~= old(self)@.specs.push(spec@));
        }
        pos
    }

    /// Adds a constraint between two already assigned positions; a position
    /// that was never assigned is refused and the conjunction is unchanged.
    pub fn add_constraint(&mut self, pos_a: usize, pos_b: usize, op: BinaryOperator) -> (r: Result<
        (),
        QueryError,
    >)
        ensures
            r is Ok <==> pos_a < old(self)@.specs.len() && pos_b < old(self)@.specs.len(),
            r is Ok ==> final(self)@.specs == old(self)@.specs && final(self)@.constraints == old(
                self,
            )@.constraints.push(Constraint { pos_a, pos_b, op }),
            r matches Err(e) ==> e == QueryError::InvalidPosition && final(self)@ == old(self)@,
    {
        if pos_a < self.specs.len() && pos_b < self.specs.len() {
            self.constraints.push(Constraint { pos_a, pos_b, op });
            proof {
                assert(self@.specs =~= old(self)@.specs);
            }
            Ok(())
        } else {
            proof {
                assert(self@.specs =~= old(self)@.specs);
                assert(self@.constraints =~= old(self)@.constraints);
            }
            Err(QueryError::InvalidPosition)
        }
    }

    /// The number of node positions assigned so far.
    pub fn num_nodes(&self) -> (r: usize)
        ensures
            r == self@.specs.len(),
    {
        self.specs.len()
    }

    /// The node predicates, in position order.
    pub fn specs(&self) -> (r: &Vec<NodeSearchSpec>)
        ensures
            r@.map_values(|s: NodeSearchSpec| s@) == self@.specs,
    {
        &self.specs
    }

    /// The constraint set, in insertion order.
    pub fn constraints(&self) -> (r: &Vec<Constraint>)
        ensures
            r@ == self@.constraints,
    {
        &self.constraints
    }
}

} // verus!
