use vstd::prelude::*;

use crate::conjunction::{Conjunction, ConjunctionView, Constraint};
use crate::disjunction::Disjunction;
use crate::errors::ParseError;
use crate::graph::BinaryOperator;
use crate::jsondoc::{
    find_key, get_member, get_str_member, jget, jget_str, json_doc, key_index,
    lemma_key_index_bounds, parse_json, JsonData,
};
use crate::nodesearch::{opt_str_view, regex_compiles, NodeSearchSpec, NodeSearchSpecView};

verus! {

/// Short-circuiting element-wise translation: every element translated in
/// order, or the first failure.
pub open spec fn parse_all<A, B>(f: spec_fn(A) -> Result<B, ParseError>, s: Seq<A>) -> Result<
    Seq<B>,
    ParseError,
>
    decreases s.len(),
{
    if s.len() == 0 {
        Ok(Seq::empty())
    } else {
        match f(s[0]) {
            Err(e) => Err(e),
            Ok(b) => match parse_all(f, s.drop_first()) {
                Err(e) => Err(e),
                Ok(rest) => Ok(rest.insert(0, b)),
            },
        }
    }
}

proof fn lemma_parse_all_ok<A, B>(f: spec_fn(A) -> Result<B, ParseError>, s: Seq<A>, m: Seq<B>)
    requires
        m.len() == s.len(),
        forall|j: int| 0 <= j < s.len() ==> f(#[trigger] s[j]) == Ok::<B, ParseError>(m[j]),
    ensures
        parse_all(f, s) == Ok::<Seq<B>, ParseError>(m),
    decreases s.len(),
{
    if s.len() == 0 {
        assert(m =~= Seq::<B>::empty());
    } else {
        assert(f(s[0]) == Ok::<B, ParseError>(m[0]));
        assert forall|j: int| 0 <= j < s.drop_first().len() implies f(#[trigger] s.drop_first()[j])
            == Ok::<B, ParseError>(m.drop_first()[j]) by {
            assert(s.drop_first()[j] == s[j + 1]);
            assert(m.drop_first()[j] == m[j + 1]);
        }
        lemma_parse_all_ok(f, s.drop_first(), m.drop_first());
        assert(m =~= m.drop_first().insert(0, m[0]));
    }
}

proof fn lemma_parse_all_err<A, B>(
    f: spec_fn(A) -> Result<B, ParseError>,
    s: Seq<A>,
    i: int,
    e: ParseError,
)
    requires
        0 <= i < s.len(),
        forall|j: int| 0 <= j < i ==> f(#[trigger] s[j]) is Ok,
        f(s[i]) == Err::<B, ParseError>(e),
    ensures
        parse_all(f, s) == Err::<Seq<B>, ParseError>(e),
    decreases s.len(),
{
    if i > 0 {
        assert(f(s[0]) is Ok);
        assert forall|j: int| 0 <= j < i - 1 implies f(#[trigger] s.drop_first()[j]) is Ok by {
            assert(s.drop_first()[j] == s[j + 1]);
        }
        assert(s.drop_first()[i - 1] == s[i]);
        lemma_parse_all_err(f, s.drop_first(), i - 1, e);
    }
}

/// How one annotation record decides the node predicate: the declared
/// text-matching mode picks the predicate kind, a missing name or an
/// uncompilable pattern is rejected.
pub open spec fn spec_decide_annotation(
    namespace: Option<Seq<char>>,
    name: Option<Seq<char>>,
    value: Option<Seq<char>>,
    text_matching: Option<Seq<char>>,
) -> Result<NodeSearchSpecView, ParseError> {
    if name is None {
        Err(ParseError::UnsupportedNodeSpec)
    } else if text_matching == Some("EXACT_EQUAL"@) {
        Ok(NodeSearchSpecView::ExactAnnotation { namespace, name: name.unwrap(), value })
    } else if text_matching == Some("REGEXP_EQUAL"@) {
        if value is None {
            Err(ParseError::UnsupportedNodeSpec)
        } else if regex_compiles(value.unwrap()) {
            Ok(
                NodeSearchSpecView::RegexAnnotation {
                    namespace,
                    name: name.unwrap(),
                    pattern: value.unwrap(),
                },
            )
        } else {
            Err(ParseError::InvalidPattern)
        }
    } else {
        Err(ParseError::UnsupportedMatchMode)
    }
}

/// How one node entry decides its predicate: the first annotation constraint
/// decides; a node without one is not yet supported.
pub open spec fn spec_parse_node(node: JsonData) -> Result<NodeSearchSpecView, ParseError> {
    match jget(node, "nodeAnnotations"@) {
        Some(JsonData::Arr(items)) => if items@.len() == 0 {
            Err(ParseError::UnsupportedNodeSpec)
        } else {
            spec_decide_annotation(
                jget_str(items@[0], "namespace"@),
                jget_str(items@[0], "name"@),
                jget_str(items@[0], "value"@),
                jget_str(items@[0], "textMatching"@),
            )
        },
        _ => Err(ParseError::UnsupportedNodeSpec),
    }
}

pub open spec fn spec_operator(s: Seq<char>) -> Option<BinaryOperator> {
    if s == "Dominance"@ {
        Some(BinaryOperator::Dominance)
    } else if s == "Precedence"@ {
        Some(BinaryOperator::Precedence)
    } else if s == "Overlap"@ {
        Some(BinaryOperator::Overlap)
    } else {
        None
    }
}

/// How one join entry decides a constraint, given the node entries that fix
/// the mapping from external identifiers to positions.
pub open spec fn spec_parse_join(join: JsonData, entries: Seq<(String, JsonData)>) -> Result<
    Constraint,
    ParseError,
> {
    let op_s = jget_str(join, "op"@);
    let l = jget_str(join, "left"@);
    let r = jget_str(join, "right"@);
    if op_s is None || l is None || r is None {
        Err(ParseError::InvalidConstraint)
    } else {
        match spec_operator(op_s.unwrap()) {
            None => Err(ParseError::UnsupportedOperator),
            Some(op) => match (key_index(entries, l.unwrap()), key_index(entries, r.unwrap())) {
                (Some(a), Some(b)) => Ok(Constraint { pos_a: a as usize, pos_b: b as usize, op }),
                _ => Err(ParseError::UnknownNodeReference),
            },
        }
    }
}

/// How one alternative becomes a conjunction: one predicate per node entry in
/// document order, then the joins as constraints; an alternative without a
/// single node is rejected.
pub open spec fn spec_parse_alternative(alt: JsonData) -> Result<ConjunctionView, ParseError> {
    match jget(alt, "nodes"@) {
        Some(JsonData::Obj(entries)) => if entries@.len() == 0 {
            Err(ParseError::EmptyAlternative)
        } else {
            match parse_all(|p: (String, JsonData)| spec_parse_node(p.1), entries@) {
                Err(e) => Err(e),
                Ok(specs) => match jget(alt, "joins"@) {
                    None => Ok(ConjunctionView { specs, constraints: Seq::empty() }),
                    Some(JsonData::Null) => Ok(
                        ConjunctionView { specs, constraints: Seq::empty() },
                    ),
                    Some(JsonData::Arr(joins)) => match parse_all(
                        |j: JsonData| spec_parse_join(j, entries@),
                        joins@,
                    ) {
                        Err(e) => Err(e),
                        Ok(cs) => Ok(ConjunctionView { specs, constraints: cs }),
                    },
                    Some(_) => Err(ParseError::InvalidConstraint),
                },
            }
        },
        _ => Err(ParseError::EmptyAlternative),
    }
}

/// How the whole document becomes the query's alternatives.
pub open spec fn spec_parse(doc: Option<JsonData>) -> Result<Seq<ConjunctionView>, ParseError> {
    match doc {
        None => Err(ParseError::InvalidJson),
        Some(root) => match jget(root, "alternatives"@) {
            Some(JsonData::Arr(alts)) => if alts@.len() == 0 {
                Err(ParseError::EmptyQuery)
            } else {
                parse_all(|a: JsonData| spec_parse_alternative(a), alts@)
            },
            _ => Err(ParseError::MissingAlternatives),
        },
    }
}

/// Translates one annotation record, appending the decided predicate to the
/// conjunction and returning its assigned position.
fn add_node_annotation(
    q: &mut Conjunction,
    namespace: Option<String>,
    name: Option<String>,
    value: Option<String>,
    text_matching: Option<String>,
) -> (r: Result<usize, ParseError>)
    ensures
        (match (
            r,
            spec_decide_annotation(
                opt_str_view(namespace),
                opt_str_view(name),
                opt_str_view(value),
                opt_str_view(text_matching),
            ),
        ) {
            (Ok(pos), Ok(m)) => pos == old(q)@.specs.len() && final(q)@.specs == old(
                q,
            )@.specs.push(m) && final(q)@.constraints == old(q)@.constraints && m.wf(),
            (Err(e1), Err(e2)) => e1 == e2 && final(q)@ == old(q)@,
            _ => false,
        }),
{
    let name_val = match name {
        Some(n) => n,
        None => {
            return Err(ParseError::UnsupportedNodeSpec);
        },
    };
    let is_exact = match &text_matching {
        Some(t) => *t == "EXACT_EQUAL".to_owned(),
        None => false,
    };
    let is_regex = match &text_matching {
        Some(t) => *t == "REGEXP_EQUAL".to_owned(),
        None => false,
    };
    if is_exact {
        let spec = NodeSearchSpec::new_exact(namespace, name_val, value);
        Ok(q.add_node(spec))
    } else if is_regex {
        let pattern = match value {
            Some(v) => v,
            None => {
                return Err(ParseError::UnsupportedNodeSpec);
            },
        };
        match NodeSearchSpec::new_regex(namespace, name_val, pattern) {
            Ok(s) => Ok(q.add_node(s)),
            Err(_) => Err(ParseError::InvalidPattern),
        }
    } else {
        Err(ParseError::UnsupportedMatchMode)
    }
}

/// Translates one node entry of an alternative, appending its predicate.
fn parse_node(q: &mut Conjunction, node: &JsonData) -> (r: Result<usize, ParseError>)
    ensures
        (match (r, spec_parse_node(*node)) {
            (Ok(pos), Ok(m)) => pos == old(q)@.specs.len() && final(q)@.specs == old(
                q,
            )@.specs.push(m) && final(q)@.constraints == old(q)@.constraints && m.wf(),
            (Err(e1), Err(e2)) => e1 == e2 && final(q)@ == old(q)@,
            _ => false,
        }),
{
    match get_member(node, "nodeAnnotations") {
        Some(arr) => match arr {
            JsonData::Arr(items) => {
                if items.len() == 0 {
                    Err(ParseError::UnsupportedNodeSpec)
                } else {
                    let a = &items[0];
                    let namespace = get_str_member(a, "namespace");
                    let name = get_str_member(a, "name");
                    let value = get_str_member(a, "value");
                    let tm = get_str_member(a, "textMatching");
                    add_node_annotation(q, namespace, name, value, tm)
                }
            },
            _ => Err(ParseError::UnsupportedNodeSpec),
        },
        None => Err(ParseError::UnsupportedNodeSpec),
    }
}

/// Translates one join entry into a constraint over assigned positions.
fn parse_join(join: &JsonData, entries: &Vec<(String, JsonData)>) -> (r: Result<
    Constraint,
    ParseError,
>)
    ensures
        (match (r, spec_parse_join(*join, entries@)) {
            (Ok(c1), Ok(c2)) => c1 == c2,
            (Err(e1), Err(e2)) => e1 == e2,
            _ => false,
        }),
{
    let op_s = get_str_member(join, "op");
    let left = get_str_member(join, "left");
    let right = get_str_member(join, "right");
    let op_str = match op_s {
        Some(s) => s,
        None => {
            return Err(ParseError::InvalidConstraint);
        },
    };
    let left_str = match left {
        Some(s) => s,
        None => {
            return Err(ParseError::InvalidConstraint);
        },
    };
    let right_str = match right {
        Some(s) => s,
        None => {
            return Err(ParseError::InvalidConstraint);
        },
    };
    let op = if op_str == "Dominance".to_owned() {
        BinaryOperator::Dominance
    } else if op_str == "Precedence".to_owned() {
        BinaryOperator::Precedence
    } else if op_str == "Overlap".to_owned() {
        BinaryOperator::Overlap
    } else {
        return Err(ParseError::UnsupportedOperator);
    };
    let a = match find_key(entries, &left_str) {
        Some(i) => i,
        None => {
            return Err(ParseError::UnknownNodeReference);
        },
    };
    let b = match find_key(entries, &right_str) {
        Some(i) => i,
        None => {
            return Err(ParseError::UnknownNodeReference);
        },
    };
    Ok(Constraint { pos_a: a, pos_b: b, op })
}

/// Translates one alternative into a conjunction.
#[verifier::loop_isolation(false)]
fn parse_alternative(alt: &JsonData) -> (r: Result<Conjunction, ParseError>)
    ensures
        (match (r, spec_parse_alternative(*alt)) {
            (Ok(c), Ok(m)) => c@ == m && c@.wf() && c@.specs.len() > 0,
            (Err(e1), Err(e2)) => e1 == e2,
            _ => false,
        }),
{
    let entries = match get_member(alt, "nodes") {
        Some(v) => match v {
            JsonData::Obj(entries) => entries,
            _ => {
                return Err(ParseError::EmptyAlternative);
            },
        },
        None => {
            return Err(ParseError::EmptyAlternative);
        },
    };
    if entries.len() == 0 {
        return Err(ParseError::EmptyAlternative);
    }
    let ghost f_node = |p: (String, JsonData)| spec_parse_node(p.1);
    let mut q = Conjunction::new();
    let mut i: usize = 0;
    while i < entries.len()
        invariant
            i <= entries@.len(),
            q@.constraints.len() == 0,
            q@.specs.len() == i,
            forall|j: int|
                0 <= j < i ==> f_node(#[trigger] entries@[j]) == Ok::<
                    NodeSearchSpecView,
                    ParseError,
                >(q@.specs[j]),
            forall|j: int| 0 <= j < i ==> (#[trigger] q@.specs[j]).wf(),
        decreases entries@.len() - i,
    {
        match parse_node(&mut q, &entries[i].1) {
            Ok(_) => {},
            Err(e) => {
                proof {
                    lemma_parse_all_err(f_node, entries@, i as int, e);
                }
                return Err(e);
            },
        }
        i += 1;
    }
    proof {
        lemma_parse_all_ok(f_node, entries@, q@.specs);
    }
    let joins = match get_member(alt, "joins") {
        None => {
            proof {
                assert(q@.constraints =~= Seq::<Constraint>::empty());
            }
            return Ok(q);
        },
        Some(v) => match v {
            JsonData::Null => {
                proof {
                    assert(q@.constraints =~= Seq::<Constraint>::empty());
                }
                return Ok(q);
            },
            JsonData::Arr(joins) => joins,
            _ => {
                return Err(ParseError::InvalidConstraint);
            },
        },
    };
    let ghost f_join = |j: JsonData| spec_parse_join(j, entries@);
    let ghost specs_done = q@.specs;
    let mut jn: usize = 0;
    while jn < joins.len()
        invariant
            jn <= joins@.len(),
            q@.specs == specs_done,
            q@.specs.len() == entries@.len(),
            q@.constraints.len() == jn,
            forall|j: int| 0 <= j < q@.specs.len() ==> (#[trigger] q@.specs[j]).wf(),
            forall|m: int|
                0 <= m < jn ==> f_join(#[trigger] joins@[m]) == Ok::<Constraint, ParseError>(
                    q@.constraints[m],
                ),
            forall|m: int|
                0 <= m < jn ==> (#[trigger] q@.constraints[m]).pos_a < q@.specs.len()
                    && q@.constraints[m].pos_b < q@.specs.len(),
        decreases joins@.len() - jn,
    {
        match parse_join(&joins[jn], entries) {
            Ok(con) => {
                proof {
                    let lkey = jget_str(joins@[jn as int], "left"@).unwrap();
                    let rkey = jget_str(joins@[jn as int], "right"@).unwrap();
                    lemma_key_index_bounds(entries@, lkey);
                    lemma_key_index_bounds(entries@, rkey);
                    assert(con.pos_a < entries@.len() && con.pos_b < entries@.len());
                }
                match q.add_constraint(con.pos_a, con.pos_b, con.op) {
                    Ok(_) => {
                        proof {
                            assert(q@.constraints.last() == con);
                        }
                    },
                    Err(_) => {
                        proof {
                            assert(false);
                        }
                        return Err(ParseError::InvalidConstraint);
                    },
                }
            },
            Err(e) => {
                proof {
                    lemma_parse_all_err(f_join, joins@, jn as int, e);
                }
                return Err(e);
            },
        }
        jn += 1;
    }
    proof {
        lemma_parse_all_ok(f_join, joins@, q@.constraints);
    }
    Ok(q)
}

/// Translates an external JSON query document into a disjunction. Every
/// malformed document is rejected with its error; nothing is partially
/// parsed and nothing panics.
#[verifier::loop_isolation(false)]
pub fn parse(query_as_string: &str) -> (r: Result<Disjunction, ParseError>)
    ensures
        (match (r, spec_parse(json_doc(query_as_string@))) {
            (Ok(d), Ok(m)) => d@ == m,
            (Err(e1), Err(e2)) => e1 == e2,
            _ => false,
        }),
        (match r {
            Ok(d) => d@.len() > 0 && forall|i: int|
                0 <= i < d@.len() ==> (#[trigger] d@[i]).wf() && d@[i].specs.len() > 0,
            Err(_) => true,
        }),
{
    let doc = match parse_json(query_as_string) {
        Some(doc) => doc,
        None => {
            return Err(ParseError::InvalidJson);
        },
    };
    let alts = match get_member(&doc, "alternatives") {
        Some(v) => match v {
            JsonData::Arr(alts) => alts,
            _ => {
                return Err(ParseError::MissingAlternatives);
            },
        },
        None => {
            return Err(ParseError::MissingAlternatives);
        },
    };
    if alts.len() == 0 {
        return Err(ParseError::EmptyQuery);
    }
    let ghost f_alt = |a: JsonData| spec_parse_alternative(a);
    let mut conjunctions: Vec<Conjunction> = Vec::new();
    let mut i: usize = 0;
    while i < alts.len()
        invariant
            i <= alts@.len(),
            conjunctions@.len() == i,
            forall|j: int|
                0 <= j < i ==> f_alt(#[trigger] alts@[j]) == Ok::<ConjunctionView, ParseError>(
                    conjunctions@[j]@,
                ),
            forall|j: int|
                0 <= j < i ==> (#[trigger] conjunctions@[j]@).wf() && conjunctions@[j]@.specs.len()
                    > 0,
        decreases alts@.len() - i,
    {
        match parse_alternative(&alts[i]) {
            Ok(c) => {
                conjunctions.push(c);
            },
            Err(e) => {
                proof {
                    lemma_parse_all_err(f_alt, alts@, i as int, e);
                }
                return Err(e);
            },
        }
        i += 1;
    }
    proof {
        lemma_parse_all_ok(f_alt, alts@, conjunctions@.map_values(|c: Conjunction| c@));
    }
    match Disjunction::new(conjunctions) {
        Ok(d) => Ok(d),
        Err(_) => {
            proof {
                assert(false);
            }
            Err(ParseError::EmptyQuery)
        },
    }
}

} // verus!
