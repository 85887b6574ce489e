use vstd::prelude::*;

use crate::nodesearch::{
    regex_full_match, regex_matches_full, NodeSearchSpec, NodeSearchSpecView, opt_str_view,
};

verus! {

/// A namespaced key/value label attached to a graph node.
#[derive(Debug, Clone, PartialEq)]
pub struct Annotation {
    pub namespace: Option<String>,
    pub name: String,
    pub value: String,
}

pub struct AnnotationView {
    pub namespace: Option<Seq<char>>,
    pub name: Seq<char>,
    pub value: Seq<char>,
}

impl View for Annotation {
    type V = AnnotationView;

    open spec fn view(&self) -> AnnotationView {
        AnnotationView {
            namespace: opt_str_view(self.namespace),
            name: self.name@,
            value: self.value@,
        }
    }
}

/// The structural relations a constraint can demand between two bound nodes.
#[derive(Debug, Clone, Copy, PartialEq, Eq, Structural)]
pub enum BinaryOperator {
    Dominance,
    Precedence,
    Overlap,
}

/// One structural fact recorded in the index: the relation `op` holds from
/// `source` to `target`.
#[derive(Debug, Clone, Copy, PartialEq, Eq, Structural)]
pub struct Edge {
    pub op: BinaryOperator,
    pub source: u64,
    pub target: u64,
}

/// One indexed node: its identifier and the annotations it carries.
#[derive(Debug, Clone, PartialEq)]
pub struct NodeEntry {
    pub id: u64,
    pub annotations: Vec<Annotation>,
}

pub struct NodeEntryView {
    pub id: u64,
    pub annotations: Seq<AnnotationView>,
}

impl View for NodeEntry {
    type V = NodeEntryView;

    open spec fn view(&self) -> NodeEntryView {
        NodeEntryView { id: self.id, annotations: self.annotations@.map_values(|a: Annotation| a@) }
    }
}

pub struct AnnoGraphView {
    pub nodes: Seq<NodeEntryView>,
    pub edges: Seq<Edge>,
}

impl AnnoGraphView {
    /// Node entries are kept in strictly ascending identifier order, so every
    /// identifier occurs at most once and search output is ordered.
    pub open spec fn wf(self) -> bool {
        forall|i: int, j: int|
            #![trigger self.nodes[i], self.nodes[j]]
            0 <= i < j < self.nodes.len() ==> self.nodes[i].id < self.nodes[j].id
    }
}

/// A read-only annotation/structural index over one corpus.
#[derive(Debug, Clone, PartialEq)]
pub struct AnnoGraph {
    nodes: Vec<NodeEntry>,
    edges: Vec<Edge>,
}

impl View for AnnoGraph {
    type V = AnnoGraphView;

    closed spec fn view(&self) -> AnnoGraphView {
        AnnoGraphView {
            nodes: self.nodes@.map_values(|n: NodeEntry| n@),
            edges: self.edges@,
        }
    }
}

/// Whether one annotation satisfies a node predicate.
pub open spec fn anno_matches(sv: NodeSearchSpecView, a: AnnotationView) -> bool {
    match sv {
        NodeSearchSpecView::ExactAnnotation { namespace, name, value } => {
            &&& a.name == name
            &&& (namespace is Some ==> a.namespace == namespace)
            &&& (value is Some ==> Some(a.value) == value)
        },
        NodeSearchSpecView::RegexAnnotation { namespace, name, pattern } => {
            &&& a.name == name
            &&& (namespace is Some ==> a.namespace == namespace)
            &&& regex_full_match(pattern, a.value)
        },
    }
}

/// Whether a node entry carries some annotation satisfying the predicate.
pub open spec fn entry_matches(sv: NodeSearchSpecView, e: NodeEntryView) -> bool {
    exists|k: int| 0 <= k < e.annotations.len() && anno_matches(sv, #[trigger] e.annotations[k])
}

/// Whether the graph holds a node with this identifier that satisfies the
/// predicate.
pub open spec fn node_matches(g: AnnoGraphView, sv: NodeSearchSpecView, id: u64) -> bool {
    exists|j: int|
        0 <= j < g.nodes.len() && (#[trigger] g.nodes[j]).id == id && entry_matches(sv, g.nodes[j])
}

/// Whether the relation `op` is recorded from `source` to `target`.
pub open spec fn edge_holds(g: AnnoGraphView, op: BinaryOperator, source: u64, target: u64) -> bool {
    exists|k: int|
        0 <= k < g.edges.len() && #[trigger] g.edges[k] == (Edge { op, source, target })
}

pub open spec fn sorted_strict(s: Seq<u64>) -> bool {
    forall|i: int, j: int| #![trigger s[i], s[j]] 0 <= i < j < s.len() ==> s[i] < s[j]
}

impl AnnoGraph {
    /// An index over an empty corpus.
    pub fn new() -> (r: AnnoGraph)
        ensures
            r@.nodes.len() == 0,
            r@.edges.len() == 0,
            r@.wf(),
    {
        AnnoGraph { nodes: Vec::new(), edges: Vec::new() }
    }

    /// Appends a node entry. Entries must arrive in ascending identifier
    /// order; an identifier not above every existing one is refused, and the
    /// index is left unchanged.
    pub fn add_node(&mut self, id: u64, annotations: Vec<Annotation>) -> (r: bool)
        requires
            old(self)@.wf(),
        ensures
            final(self)@.wf(),
            r == (old(self)@.nodes.len() == 0 || old(self)@.nodes.last().id < id),
            r ==> final(self)@.nodes == old(self)@.nodes.push(
                NodeEntryView { id, annotations: annotations@.map_values(|a: Annotation| a@) },
            ) && final(self)@.edges == old(self)@.edges,
            !r ==> final(self)@ == old(self)@,
    {
        let ok = self.nodes.len() == 0 || self.nodes[self.nodes.len() - 1].id < id;
        if ok {
            let ghost old_nodes = self@.nodes;
            self.nodes.push(NodeEntry { id, annotations });
            proof {
                assert(self@.nodes =~= old_nodes.push(
                    NodeEntryView {
                        id,
                        annotations: annotations@.map_values(|a: Annotation| a@),
                    },
                ));
                assert forall|i: int, j: int|
                    #![trigger self@.nodes[i], self@.nodes[j]]
                    0 <= i < j < self@.nodes.len() implies self@.nodes[i].id
                    < self@.nodes[j].id by {
                    if j == self@.nodes.len() - 1 && old_nodes.len() > 0 {
                        assert(old_nodes[i].id <= old_nodes.last().id);
                    }
                }
            }
        } else {
            proof {
                assert(self@ =~= old(self)@);
            }
        }
        ok
    }

    /// Records a structural fact.
    pub fn add_edge(&mut self, op: BinaryOperator, source: u64, target: u64)
        requires
            old(self)@.wf(),
        ensures
            final(self)@.wf(),
            final(self)@.edges == old(self)@.edges.push(Edge { op, source, target }),
            final(self)@.nodes == old(self)@.nodes,
    {
        self.edges.push(Edge { op, source, target });
        proof {
            assert(self@.nodes =~= old(self)@.nodes);
        }
    }

    /// Whether the relation `op` is recorded from `source` to `target`.
    pub fn has_edge(&self, op: BinaryOperator, source: u64, target: u64) -> (r: bool)
        ensures
            r == edge_holds(self@, op, source, target),
    {
        let mut k: usize = 0;
        while k < self.edges.len()
            invariant
                k <= self.edges.len(),
                forall|m: int|
                    0 <= m < k ==> #[trigger] self@.edges[m] != (Edge { op, source, target }),
            decreases self.edges.len() - k,
        {
            let e = self.edges[k];
            if e.op == op && e.source == source && e.target == target {
                assert(self@.edges[k as int] == (Edge { op, source, target }));
                return true;
            }
            k += 1;
        }
        false
    }
}

fn opt_ns_matches(spec_ns: &Option<String>, anno_ns: &Option<String>) -> (r: bool)
    ensures
        r == (opt_str_view(*spec_ns) is Some ==> opt_str_view(*anno_ns) == opt_str_view(*spec_ns)),
{
    match spec_ns {
        None => true,
        Some(ns) => match anno_ns {
            Some(an) => *an == *ns,
            None => false,
        },
    }
}

/// Whether one annotation satisfies the predicate; the executable side of
/// `anno_matches`.
fn anno_sat(s: &NodeSearchSpec, a: &Annotation) -> (r: bool)
    requires
        s@.wf(),
    ensures
        r == anno_matches(s@, a@),
{
    match s {
        NodeSearchSpec::ExactAnnotation { namespace, name, value } => {
            if !(a.name == *name) {
                return false;
            }
            if !opt_ns_matches(namespace, &a.namespace) {
                return false;
            }
            match value {
                None => true,
                Some(v) => a.value == *v,
            }
        },
        NodeSearchSpec::RegexAnnotation { namespace, name, pattern } => {
            if !(a.name == *name) {
                return false;
            }
            if !opt_ns_matches(namespace, &a.namespace) {
                return false;
            }
            regex_matches_full(pattern.as_str(), a.value.as_str())
        },
    }
}

fn entry_sat(s: &NodeSearchSpec, e: &NodeEntry) -> (r: bool)
    requires
        s@.wf(),
    ensures
        r == entry_matches(s@, e@),
{
    let mut k: usize = 0;
    while k < e.annotations.len()
        invariant
            s@.wf(),
            k <= e.annotations.len(),
            forall|m: int| 0 <= m < k ==> !anno_matches(s@, #[trigger] e@.annotations[m]),
        decreases e.annotations.len() - k,
    {
        if anno_sat(s, &e.annotations[k]) {
            assert(anno_matches(s@, e@.annotations[k as int]));
            return true;
        }
        k += 1;
    }
    false
}

/// The node-search executor: all identifiers of nodes satisfying the
/// predicate, in ascending order. The output set equals exactly the set of
/// matching nodes.
pub fn find_candidates(g: &AnnoGraph, s: &NodeSearchSpec) -> (r: Vec<u64>)
    requires
        g@.wf(),
        s@.wf(),
    ensures
        sorted_strict(r@),
        forall|id: u64| r@.contains(id) <==> node_matches(g@, s@, id),
{
    let mut out: Vec<u64> = Vec::new();
    let mut j: usize = 0;
    while j < g.nodes.len()
        invariant
            g@.wf(),
            s@.wf(),
            j <= g.nodes.len(),
            g@.nodes.len() == g.nodes.len(),
            sorted_strict(out@),
            out@.len() > 0 ==> exists|p: int|
                0 <= p < j && out@.last() == (#[trigger] g@.nodes[p]).id,
            forall|id: u64|
                out@.contains(id) <==> exists|p: int|
                    0 <= p < j && (#[trigger] g@.nodes[p]).id == id && entry_matches(
                        s@,
                        g@.nodes[p],
                    ),
        decreases g.nodes.len() - j,
    {
        let entry = &g.nodes[j];
        assert(entry@ == g@.nodes[j as int]);
        if entry_sat(s, entry) {
            let ghost old_out = out@;
            proof {
                if old_out.len() > 0 {
                    let p = choose|p: int|
                        0 <= p < j && old_out.last() == (#[trigger] g@.nodes[p]).id;
                    assert(g@.nodes[p].id < g@.nodes[j as int].id);
                }
            }
            out.push(entry.id);
            proof {
                assert(out@ == old_out.push(g@.nodes[j as int].id));
                assert forall|a: int, b: int|
                    #![trigger out@[a], out@[b]]
                    0 <= a < b < out@.len() implies out@[a] < out@[b] by {
                    if b < old_out.len() {
                        assert(old_out[a] < old_out[b]);
                    } else {
                        if a < old_out.len() - 1 {
                            assert(old_out[a] < old_out.last());
                        }
                    }
                }
                assert(0 <= j < j + 1 && out@.last() == g@.nodes[j as int].id);
                assert forall|id: u64| out@.contains(id) implies exists|p: int|
                    0 <= p < j + 1 && (#[trigger] g@.nodes[p]).id == id && entry_matches(
                        s@,
                        g@.nodes[p],
                    ) by {
                    let m = choose|m: int| 0 <= m < out@.len() && out@[m] == id;
                    if m < old_out.len() {
                        assert(old_out.contains(id));
                    } else {
                        assert(g@.nodes[j as int].id == id);
                    }
                }
                assert forall|id: u64|
                    (exists|p: int|
                        0 <= p < j + 1 && (#[trigger] g@.nodes[p]).id == id && entry_matches(
                            s@,
                            g@.nodes[p],
                        )) implies out@.contains(id) by {
                    let p = choose|p: int|
                        0 <= p < j + 1 && (#[trigger] g@.nodes[p]).id == id && entry_matches(
                            s@,
                            g@.nodes[p],
                        );
                    if p < j {
                        assert(old_out.contains(id));
                        let m = choose|m: int| 0 <= m < old_out.len() && old_out[m] == id;
                        assert(out@[m] == id);
                    } else {
                        assert(out@[out@.len() - 1] == id);
                    }
                }
            }
        } else {
            proof {
                if out@.len() > 0 {
                    let p = choose|p: int|
                        0 <= p < j && out@.last() == (#[trigger] g@.nodes[p]).id;
                    assert(0 <= p < j + 1 && out@.last() == g@.nodes[p].id);
                }
                assert forall|id: u64|
                    (exists|p: int|
                        0 <= p < j + 1 && (#[trigger] g@.nodes[p]).id == id && entry_matches(
                            s@,
                            g@.nodes[p],
                        )) implies out@.contains(id) by {
                    let p = choose|p: int|
                        0 <= p < j + 1 && (#[trigger] g@.nodes[p]).id == id && entry_matches(
                            s@,
                            g@.nodes[p],
                        );
                    assert(p != j);
                }
            }
        }
        j += 1;
    }
    out
}

} // verus!
