use vstd::prelude::*;

use crate::conjunction::{Conjunction, ConjunctionView};
use crate::disjunction::Disjunction;
use crate::graph::{
    edge_holds, find_candidates, node_matches, sorted_strict, AnnoGraph, AnnoGraphView,
};

verus! {

pub open spec fn tuples_view(ts: Seq<Vec<u64>>) -> Seq<Seq<u64>> {
    ts.map_values(|t: Vec<u64>| t@)
}

pub open spec fn distinct_tuples(ts: Seq<Seq<u64>>) -> bool {
    forall|a: int, b: int| #![trigger ts[a], ts[b]] 0 <= a < b < ts.len() ==> ts[a] != ts[b]
}

/// The bindings `t` satisfy every node predicate among the first `k`
/// positions and every constraint whose two positions both lie below `k`.
pub open spec fn sat_upto(g: AnnoGraphView, c: ConjunctionView, t: Seq<u64>, k: int) -> bool {
    &&& forall|i: int| 0 <= i < k ==> node_matches(g, c.specs[i], #[trigger] t[i])
    &&& forall|j: int|
        0 <= j < c.constraints.len() && (#[trigger] c.constraints[j]).pos_a < k
            && c.constraints[j].pos_b < k ==> edge_holds(
            g,
            c.constraints[j].op,
            t[c.constraints[j].pos_a as int],
            t[c.constraints[j].pos_b as int],
        )
}

/// One assignment of graph nodes to all positions of the pattern, satisfying
/// every node predicate and every constraint.
pub open spec fn tuple_matches(g: AnnoGraphView, c: ConjunctionView, t: Seq<u64>) -> bool {
    t.len() == c.specs.len() && sat_upto(g, c, t, c.specs.len() as int)
}

/// Whether some alternative of the query is satisfied by the bindings `t`.
pub open spec fn disjunction_matches(
    g: AnnoGraphView,
    d: Seq<ConjunctionView>,
    t: Seq<u64>,
) -> bool {
    exists|i: int| 0 <= i < d.len() && tuple_matches(g, #[trigger] d[i], t)
}

fn clone_tuple(t: &Vec<u64>) -> (r: Vec<u64>)
    ensures
        r@ == t@,
{
    let mut r: Vec<u64> = Vec::new();
    let mut i: usize = 0;
    while i < t.len()
        invariant
            i <= t@.len(),
            r@ == t@.subrange(0, i as int),
        decreases t@.len() - i,
    {
        r.push(t[i]);
        proof {
            assert(r@ =~= t@.subrange(0, i + 1 as int));
        }
        i += 1;
    }
    proof {
        assert(t@.subrange(0, t@.len() as int) =~= t@);
    }
    r
}

fn tuple_eq(a: &Vec<u64>, b: &Vec<u64>) -> (r: bool)
    ensures
        r == (a@ == b@),
{
    if a.len() != b.len() {
        return false;
    }
    let mut i: usize = 0;
    while i < a.len()
        invariant
            a@.len() == b@.len(),
            i <= a@.len(),
            forall|m: int| 0 <= m < i ==> a@[m] == b@[m],
        decreases a@.len() - i,
    {
        if a[i] != b[i] {
            return false;
        }
        i += 1;
    }
    proof {
        assert(a@ =~= b@);
    }
    true
}

fn contains_tuple(ts: &Vec<Vec<u64>>, t: &Vec<u64>) -> (r: bool)
    ensures
        r == tuples_view(ts@).contains(t@),
{
    let mut i: usize = 0;
    while i < ts.len()
        invariant
            i <= ts@.len(),
            forall|m: int| 0 <= m < i ==> tuples_view(ts@)[m] != t@,
        decreases ts@.len() - i,
    {
        if tuple_eq(&ts[i], t) {
            proof {
                assert(tuples_view(ts@)[i as int] == t@);
            }
            return true;
        }
        i += 1;
    }
    false
}

/// Whether every constraint that is fully bound below position `k` holds of
/// the bindings `t`.
fn constraints_hold_upto(g: &AnnoGraph, c: &Conjunction, t: &Vec<u64>, k: usize) -> (r: bool)
    requires
        c@.wf(),
        k <= t@.len(),
    ensures
        r == (forall|j: int|
            0 <= j < c@.constraints.len() && (#[trigger] c@.constraints[j]).pos_a < k
                && c@.constraints[j].pos_b < k ==> edge_holds(
                g@,
                c@.constraints[j].op,
                t@[c@.constraints[j].pos_a as int],
                t@[c@.constraints[j].pos_b as int],
            )),
{
    let cons = c.constraints();
    let mut j: usize = 0;
    while j < cons.len()
        invariant
            c@.wf(),
            k <= t@.len(),
            cons@ == c@.constraints,
            j <= cons@.len(),
            forall|m: int|
                0 <= m < j && (#[trigger] c@.constraints[m]).pos_a < k && c@.constraints[m].pos_b
                    < k ==> edge_holds(
                    g@,
                    c@.constraints[m].op,
                    t@[c@.constraints[m].pos_a as int],
                    t@[c@.constraints[m].pos_b as int],
                ),
        decreases cons@.len() - j,
    {
        let con = cons[j];
        if con.pos_a < k && con.pos_b < k {
            if !g.has_edge(con.op, t[con.pos_a], t[con.pos_b]) {
                proof {
                    assert(c@.constraints[j as int].pos_a < k && c@.constraints[j as int].pos_b < k
                        && !edge_holds(
                        g@,
                        c@.constraints[j as int].op,
                        t@[c@.constraints[j as int].pos_a as int],
                        t@[c@.constraints[j as int].pos_b as int],
                    ));
                }
                return false;
            }
        }
        j += 1;
    }
    true
}

/// The conjunction matcher: all assignments of graph nodes to the pattern's
/// positions that satisfy every node predicate and every constraint, each
/// assignment reported once.
pub fn match_conjunction(g: &AnnoGraph, c: &Conjunction) -> (r: Vec<Vec<u64>>)
    requires
        g@.wf(),
        c@.wf(),
    ensures
        forall|t: Seq<u64>|
            #![trigger tuples_view(r@).contains(t)]
            tuples_view(r@).contains(t) <==> tuple_matches(g@, c@, t),
        distinct_tuples(tuples_view(r@)),
{
    let n = c.num_nodes();
    let mut tuples: Vec<Vec<u64>> = Vec::new();
    tuples.push(Vec::new());
    proof {
        assert(tuples_view(tuples@)[0] =~= Seq::<u64>::empty());
        assert forall|t: Seq<u64>|
            #![trigger tuples_view(tuples@).contains(t)]
            tuples_view(tuples@).contains(t) <==> (t.len() == 0 && sat_upto(
            g@,
            c@,
            t,
            0,
        )) by {
            if t.len() == 0 {
                assert(t =~= tuples_view(tuples@)[0]);
                assert(tuples_view(tuples@).contains(t));
            }
            if tuples_view(tuples@).contains(t) {
                let m = choose|m: int|
                    0 <= m < tuples_view(tuples@).len() && (#[trigger] tuples_view(tuples@)[m]) == t;
                assert(m == 0);
            }
        }
    }
    let mut k: usize = 0;
    while k < n
        invariant
            g@.wf(),
            c@.wf(),
            n == c@.specs.len(),
            k <= n,
            forall|t: Seq<u64>|
                #![trigger tuples_view(tuples@).contains(t)]
                tuples_view(tuples@).contains(t) <==> (t.len() == k && sat_upto(
                    g@,
                    c@,
                    t,
                    k as int,
                )),
            distinct_tuples(tuples_view(tuples@)),
        decreases n - k,
    {
        let specs_ref = c.specs();
        let spec_k = &specs_ref[k];
        proof {
            assert(spec_k@ == c@.specs[k as int]);
            assert(c@.specs[k as int].wf());
        }
        let cands = find_candidates(g, spec_k);
        let mut new_tuples: Vec<Vec<u64>> = Vec::new();
        let ghost tv_old = tuples_view(tuples@);
        let mut ti: usize = 0;
        while ti < tuples.len()
            invariant
                g@.wf(),
                c@.wf(),
                n == c@.specs.len(),
                k < n,
                tv_old == tuples_view(tuples@),
                ti <= tuples@.len(),
                spec_k@ == c@.specs[k as int],
                sorted_strict(cands@),
                forall|id: u64| cands@.contains(id) <==> node_matches(g@, c@.specs[k as int], id),
                forall|t: Seq<u64>|
                    #![trigger tv_old.contains(t)]
                    tv_old.contains(t) <==> (t.len() == k && sat_upto(g@, c@, t, k as int)),
                distinct_tuples(tv_old),
                forall|t: Seq<u64>|
                    #![trigger tuples_view(new_tuples@).contains(t)]
                    tuples_view(new_tuples@).contains(t) <==> (t.len() == k + 1 && sat_upto(
                        g@,
                        c@,
                        t,
                        k + 1,
                    ) && tv_old.subrange(0, ti as int).contains(t.subrange(0, k as int))),
                distinct_tuples(tuples_view(new_tuples@)),
            decreases tuples@.len() - ti,
        {
            let base = &tuples[ti];
            proof {
                assert(tv_old[ti as int] == base@);
                assert(tv_old.contains(base@));
                assert(base@.len() == k);
            }
            let mut cj: usize = 0;
            while cj < cands.len()
                invariant
                    g@.wf(),
                    c@.wf(),
                    n == c@.specs.len(),
                    k < n,
                    tv_old == tuples_view(tuples@),
                    ti < tuples@.len(),
                    cj <= cands@.len(),
                    spec_k@ == c@.specs[k as int],
                    base@ == tv_old[ti as int],
                    base@.len() == k,
                    sorted_strict(cands@),
                    forall|id: u64|
                        cands@.contains(id) <==> node_matches(g@, c@.specs[k as int], id),
                    forall|t: Seq<u64>|
                        #![trigger tv_old.contains(t)]
                        tv_old.contains(t) <==> (t.len() == k && sat_upto(g@, c@, t, k as int)),
                    forall|t: Seq<u64>|
                        #![trigger tuples_view(new_tuples@).contains(t)]
                        tuples_view(new_tuples@).contains(t) <==> (t.len() == k + 1 && sat_upto(
                            g@,
                            c@,
                            t,
                            k + 1,
                        ) && (tv_old.subrange(0, ti as int).contains(t.subrange(0, k as int)) || (
                        t.subrange(0, k as int) == base@ && cands@.subrange(0, cj as int).contains(
                            t[k as int],
                        )))),
                    distinct_tuples(tuples_view(new_tuples@)),
                decreases cands@.len() - cj,
            {
                let cand = cands[cj];
                let mut nt = clone_tuple(base);
                nt.push(cand);
                proof {
                    assert(nt@ == base@.push(cand));
                    assert(nt@.subrange(0, k as int) =~= base@);
                    assert(nt@[k as int] == cand);
                    assert(cands@.contains(cand));
                }
                let ok = constraints_hold_upto(g, c, &nt, k + 1);
                proof {
                    assert(tv_old[ti as int] == base@);
                    assert(tv_old.contains(base@));
                    assert(sat_upto(g@, c@, base@, k as int));
                    // Either way, decide whether nt satisfies the extended prefix.
                    if ok {
                        assert forall|i: int| 0 <= i < k + 1 implies node_matches(
                            g@,
                            c@.specs[i],
                            #[trigger] nt@[i],
                        ) by {
                            if i < k {
                                assert(nt@[i] == base@[i]);
                                assert(sat_upto(g@, c@, base@, k as int));
                            } else {
                                assert(nt@[i] == cand);
                            }
                        }
                        assert(sat_upto(g@, c@, nt@, k + 1));
                    } else {
                        assert(!sat_upto(g@, c@, nt@, k + 1));
                    }
                }
                if ok {
                    if !contains_tuple(&new_tuples, &nt) {
                        let ghost nv_old = tuples_view(new_tuples@);
                        new_tuples.push(nt);
                        proof {
                            assert(tuples_view(new_tuples@) =~= nv_old.push(
                                base@.push(cand),
                            ));
                            assert forall|a: int, b: int|
                                #![trigger tuples_view(new_tuples@)[a], tuples_view(new_tuples@)[b]]
                                0 <= a < b < tuples_view(new_tuples@).len() implies tuples_view(
                                new_tuples@,
                            )[a] != tuples_view(new_tuples@)[b] by {
                                if b == tuples_view(new_tuples@).len() - 1 {
                                    assert(!nv_old.contains(base@.push(cand)));
                                    assert(nv_old[a] == tuples_view(new_tuples@)[a]);
                                }
                            }
                            assert forall|t: Seq<u64>|
                                #![trigger tuples_view(new_tuples@).contains(t)]
                                tuples_view(new_tuples@).contains(t) <==> (t.len() == k + 1
                                && sat_upto(g@, c@, t, k + 1) && (tv_old.subrange(
                                0,
                                ti as int,
                            ).contains(t.subrange(0, k as int)) || (t.subrange(0, k as int)
                                == base@ && cands@.subrange(0, cj + 1 as int).contains(
                                t[k as int],
                            )))) by {
                                if tuples_view(new_tuples@).contains(t) {
                                    let m = choose|m: int|
                                        0 <= m < tuples_view(new_tuples@).len() && (#[trigger] tuples_view(
                                            new_tuples@,
                                        )[m]) == t;
                                    if m < nv_old.len() {
                                        assert(nv_old.contains(t));
                                        if t.subrange(0, k as int) == base@
                                            && cands@.subrange(0, cj as int).contains(
                                            t[k as int],
                                        ) {
                                            let q = choose|q: int|
                                                0 <= q < cj && (#[trigger] cands@.subrange(0, cj as int)[q])
                                                    == t[k as int];
                                            assert(cands@.subrange(0, cj + 1 as int)[q] == t[k as int]);
                                        }
                                    } else {
                                        assert(t == nt@);
                                        assert(cands@.subrange(0, cj + 1 as int)[cj as int]
                                            == cand);
                                    }
                                } else {
                                    if t.len() == k + 1 && sat_upto(g@, c@, t, k + 1)
                                        && (tv_old.subrange(0, ti as int).contains(
                                        t.subrange(0, k as int),
                                    ) || (t.subrange(0, k as int) == base@ && cands@.subrange(
                                        0,
                                        cj + 1 as int,
                                    ).contains(t[k as int]))) {
                                        if tv_old.subrange(0, ti as int).contains(
                                            t.subrange(0, k as int),
                                        ) {
                                            assert(nv_old.contains(t));
                                            let m = choose|m: int|
                                                0 <= m < nv_old.len() && (#[trigger] nv_old[m]) == t;
                                            assert(tuples_view(new_tuples@)[m] == t);
                                        } else {
                                            let q = choose|q: int|
                                                0 <= q < cj + 1 && (#[trigger] cands@.subrange(
                                                    0,
                                                    cj + 1 as int,
                                                )[q]) == t[k as int];
                                            if q < cj {
                                                assert(cands@.subrange(0, cj as int)[q] == t[k as int]);
                                                assert(nv_old.contains(t));
                                                let m = choose|m: int|
                                                    0 <= m < nv_old.len() && (#[trigger] nv_old[m]) == t;
                                                assert(tuples_view(new_tuples@)[m] == t);
                                            } else {
                                                assert(t[k as int] == cand);
                                                assert(t =~= nt@);
                                                assert(tuples_view(new_tuples@)[nv_old.len() as int]
                                                    == t);
                                            }
                                        }
                                    }
                                }
                            }
                        }
                    } else {
                        proof {
                            assert forall|t: Seq<u64>|
                                #![trigger tuples_view(new_tuples@).contains(t)]
                                tuples_view(new_tuples@).contains(t) <==> (t.len() == k + 1
                                && sat_upto(g@, c@, t, k + 1) && (tv_old.subrange(
                                0,
                                ti as int,
                            ).contains(t.subrange(0, k as int)) || (t.subrange(0, k as int)
                                == base@ && cands@.subrange(0, cj + 1 as int).contains(
                                t[k as int],
                            )))) by {
                                if tuples_view(new_tuples@).contains(t) {
                                    if t.subrange(0, k as int) == base@ && cands@.subrange(
                                        0,
                                        cj as int,
                                    ).contains(t[k as int]) {
                                        let q = choose|q: int|
                                            0 <= q < cj && (#[trigger] cands@.subrange(0, cj as int)[q]) == t[k as int];
                                        assert(cands@.subrange(0, cj + 1 as int)[q] == t[k as int]);
                                    }
                                } else {
                                    if t.len() == k + 1 && sat_upto(g@, c@, t, k + 1)
                                        && !tv_old.subrange(0, ti as int).contains(
                                        t.subrange(0, k as int),
                                    ) && t.subrange(0, k as int) == base@ && cands@.subrange(
                                        0,
                                        cj + 1 as int,
                                    ).contains(t[k as int]) {
                                        let q = choose|q: int|
                                            0 <= q < cj + 1 && (#[trigger] cands@.subrange(0, cj + 1 as int)[q])
                                                == t[k as int];
                                        if q < cj {
                                            assert(cands@.subrange(0, cj as int)[q] == t[k as int]);
                                        } else {
                                            assert(t[k as int] == cand);
                                            assert(t =~= nt@);
                                            assert(tuples_view(new_tuples@).contains(nt@));
                                        }
                                    }
                                }
                            }
                        }
                    }
                } else {
                    proof {
                        assert forall|t: Seq<u64>|
                            #![trigger tuples_view(new_tuples@).contains(t)]
                            tuples_view(new_tuples@).contains(t) <==> (t.len() == k + 1 && sat_upto(
                            g@,
                            c@,
                            t,
                            k + 1,
                        ) && (tv_old.subrange(0, ti as int).contains(t.subrange(0, k as int)) || (
                        t.subrange(0, k as int) == base@ && cands@.subrange(0, cj + 1 as int).contains(
                            t[k as int],
                        )))) by {
                            if tuples_view(new_tuples@).contains(t) {
                                if t.subrange(0, k as int) == base@ && cands@.subrange(
                                    0,
                                    cj as int,
                                ).contains(t[k as int]) {
                                    let q = choose|q: int|
                                        0 <= q < cj && (#[trigger] cands@.subrange(0, cj as int)[q]) == t[k as int];
                                    assert(cands@.subrange(0, cj + 1 as int)[q] == t[k as int]);
                                }
                            } else {
                                if t.len() == k + 1 && sat_upto(g@, c@, t, k + 1)
                                    && !tv_old.subrange(0, ti as int).contains(
                                    t.subrange(0, k as int),
                                ) && t.subrange(0, k as int) == base@ && cands@.subrange(
                                    0,
                                    cj + 1 as int,
                                ).contains(t[k as int]) {
                                    let q = choose|q: int|
                                        0 <= q < cj + 1 && (#[trigger] cands@.subrange(0, cj + 1 as int)[q])
                                            == t[k as int];
                                    if q < cj {
                                        assert(cands@.subrange(0, cj as int)[q] == t[k as int]);
                                    } else {
                                        assert(t[k as int] == cand);
                                        assert(t =~= nt@);
                                        assert(sat_upto(g@, c@, nt@, k + 1));
                                    }
                                }
                            }
                        }
                    }
                }
                cj += 1;
            }
            proof {
                assert forall|t: Seq<u64>|
                    #![trigger tuples_view(new_tuples@).contains(t)]
                    tuples_view(new_tuples@).contains(t) <==> (t.len() == k + 1 && sat_upto(
                    g@,
                    c@,
                    t,
                    k + 1,
                ) && tv_old.subrange(0, ti + 1 as int).contains(t.subrange(0, k as int))) by {
                    if tuples_view(new_tuples@).contains(t) {
                        if tv_old.subrange(0, ti as int).contains(t.subrange(0, k as int)) {
                            let m = choose|m: int|
                                0 <= m < ti && (#[trigger] tv_old.subrange(0, ti as int)[m]) == t.subrange(
                                    0,
                                    k as int,
                                );
                            assert(tv_old.subrange(0, ti + 1 as int)[m] == t.subrange(
                                0,
                                k as int,
                            ));
                        } else {
                            assert(t.subrange(0, k as int) == base@);
                            assert(tv_old.subrange(0, ti + 1 as int)[ti as int] == base@);
                        }
                    } else {
                        if t.len() == k + 1 && sat_upto(g@, c@, t, k + 1) && tv_old.subrange(
                            0,
                            ti + 1 as int,
                        ).contains(t.subrange(0, k as int)) {
                            let m = choose|m: int|
                                0 <= m < ti + 1 && (#[trigger] tv_old.subrange(0, ti + 1 as int)[m])
                                    == t.subrange(0, k as int);
                            if m < ti {
                                assert(tv_old.subrange(0, ti as int)[m] == t.subrange(
                                    0,
                                    k as int,
                                ));
                            } else {
                                assert(t.subrange(0, k as int) == base@);
                                // t's last position is a matching node, so it is a candidate.
                                assert(node_matches(g@, c@.specs[k as int], t[k as int]));
                                assert(cands@.contains(t[k as int]));
                                let q = choose|q: int|
                                    0 <= q < cands@.len() && (#[trigger] cands@[q]) == t[k as int];
                                assert(cands@.subrange(0, cands@.len() as int) =~= cands@);
                                assert(cands@.subrange(0, cands@.len() as int)[q] == t[k as int]);
                            }
                        }
                    }
                }
            }
            ti += 1;
        }
        proof {
            assert(tv_old.subrange(0, tuples@.len() as int) =~= tv_old);
            assert forall|t: Seq<u64>|
                #![trigger tuples_view(new_tuples@).contains(t)]
                tuples_view(new_tuples@).contains(t) <==> (t.len() == k + 1 && sat_upto(
                g@,
                c@,
                t,
                k + 1,
            )) by {
                if t.len() == k + 1 && sat_upto(g@, c@, t, k + 1) {
                    let pre = t.subrange(0, k as int);
                    assert forall|i: int| 0 <= i < k implies node_matches(
                        g@,
                        c@.specs[i],
                        #[trigger] pre[i],
                    ) by {
                        assert(pre[i] == t[i]);
                    }
                    assert forall|j: int|
                        0 <= j < c@.constraints.len() && (#[trigger] c@.constraints[j]).pos_a < k
                            && c@.constraints[j].pos_b < k implies edge_holds(
                        g@,
                        c@.constraints[j].op,
                        pre[c@.constraints[j].pos_a as int],
                        pre[c@.constraints[j].pos_b as int],
                    ) by {
                        assert(pre[c@.constraints[j].pos_a as int] == t[c@.constraints[j].pos_a as int]);
                        assert(pre[c@.constraints[j].pos_b as int] == t[c@.constraints[j].pos_b as int]);
                    }
                    assert(sat_upto(g@, c@, pre, k as int));
                    assert(tv_old.contains(pre));
                }
            }
        }
        tuples = new_tuples;
        k += 1;
    }
    proof {
        assert forall|t: Seq<u64>|
            #![trigger tuples_view(tuples@).contains(t)]
            tuples_view(tuples@).contains(t) <==> tuple_matches(g@, c@, t) by {}
    }
    tuples
}

/// The disjunction evaluator: the union of every alternative's matches, with
/// duplicate assignments across alternatives removed. No assignment appears
/// twice in the output.
pub fn match_disjunction(g: &AnnoGraph, d: &Disjunction) -> (r: Vec<Vec<u64>>)
    requires
        g@.wf(),
        forall|i: int| 0 <= i < d@.len() ==> (#[trigger] d@[i]).wf() && d@[i].specs.len() > 0,
    ensures
        forall|t: Seq<u64>|
            #![trigger tuples_view(r@).contains(t)]
            tuples_view(r@).contains(t) <==> disjunction_matches(g@, d@, t),
        distinct_tuples(tuples_view(r@)),
{
    let mut out: Vec<Vec<u64>> = Vec::new();
    let alts = d.alternatives();
    let mut ci: usize = 0;
    while ci < alts.len()
        invariant
            g@.wf(),
            forall|i: int| 0 <= i < d@.len() ==> (#[trigger] d@[i]).wf() && d@[i].specs.len() > 0,
            alts@.map_values(|c: Conjunction| c@) == d@,
            ci <= alts@.len(),
            forall|t: Seq<u64>|
                #![trigger tuples_view(out@).contains(t)]
                tuples_view(out@).contains(t) <==> disjunction_matches(
                    g@,
                    d@.subrange(0, ci as int),
                    t,
                ),
            distinct_tuples(tuples_view(out@)),
        decreases alts@.len() - ci,
    {
        let conj = &alts[ci];
        proof {
            assert(conj@ == d@[ci as int]);
        }
        let ms = match_conjunction(g, conj);
        let mut mi: usize = 0;
        while mi < ms.len()
            invariant
                g@.wf(),
                alts@.map_values(|c: Conjunction| c@) == d@,
                ci < alts@.len(),
                conj@ == d@[ci as int],
                mi <= ms@.len(),
                forall|t: Seq<u64>|
                    #![trigger tuples_view(ms@).contains(t)]
                    tuples_view(ms@).contains(t) <==> tuple_matches(g@, conj@, t),
                distinct_tuples(tuples_view(ms@)),
                forall|t: Seq<u64>|
                    #![trigger tuples_view(out@).contains(t)]
                    tuples_view(out@).contains(t) <==> (disjunction_matches(
                        g@,
                        d@.subrange(0, ci as int),
                        t,
                    ) || tuples_view(ms@).subrange(0, mi as int).contains(t)),
                distinct_tuples(tuples_view(out@)),
            decreases ms@.len() - mi,
        {
            let t = &ms[mi];
            proof {
                assert(tuples_view(ms@)[mi as int] == t@);
                assert(tuples_view(ms@).contains(t@));
            }
            let ghost ov = tuples_view(out@);
            let found = contains_tuple(&out, t);
            if !found {
                let nt = clone_tuple(t);
                out.push(nt);
                proof {
                    assert(tuples_view(out@) =~= ov.push(t@));
                    assert forall|a: int, b: int|
                        #![trigger tuples_view(out@)[a], tuples_view(out@)[b]]
                        0 <= a < b < tuples_view(out@).len() implies tuples_view(out@)[a]
                        != tuples_view(out@)[b] by {
                        if b == tuples_view(out@).len() - 1 {
                            assert(!ov.contains(t@));
                            assert(ov[a] == tuples_view(out@)[a]);
                        }
                    }
                }
            }
            proof {
                if found {
                    assert(tuples_view(out@) == ov);
                } else {
                    assert(tuples_view(out@) =~= ov.push(t@));
                    assert(tuples_view(out@)[ov.len() as int] == t@);
                }
                assert(tuples_view(out@).contains(t@));
                assert forall|u: Seq<u64>|
                    #![trigger tuples_view(out@).contains(u)]
                    tuples_view(out@).contains(u) <==> (disjunction_matches(
                    g@,
                    d@.subrange(0, ci as int),
                    u,
                ) || tuples_view(ms@).subrange(0, mi + 1 as int).contains(u)) by {
                    if tuples_view(out@).contains(u) {
                        let m = choose|m: int|
                            0 <= m < tuples_view(out@).len() && (#[trigger] tuples_view(out@)[m])
                                == u;
                        if m < ov.len() {
                            assert(ov[m] == u);
                            assert(ov.contains(u));
                        } else {
                            assert(u == t@);
                        }
                        if ov.contains(u) {
                            if tuples_view(ms@).subrange(0, mi as int).contains(u) {
                                let q = choose|q: int|
                                    0 <= q < mi && (#[trigger] tuples_view(ms@).subrange(
                                        0,
                                        mi as int,
                                    )[q]) == u;
                                assert(tuples_view(ms@).subrange(0, mi + 1 as int)[q] == u);
                            }
                        } else {
                            assert(u == t@);
                            assert(tuples_view(ms@).subrange(0, mi + 1 as int)[mi as int] == t@);
                        }
                    }
                    if disjunction_matches(g@, d@.subrange(0, ci as int), u) {
                        assert(ov.contains(u));
                        let m = choose|m: int| 0 <= m < ov.len() && (#[trigger] ov[m]) == u;
                        assert(tuples_view(out@)[m] == u);
                        assert(tuples_view(out@).contains(u));
                    }
                    if tuples_view(ms@).subrange(0, mi + 1 as int).contains(u) {
                        let q = choose|q: int|
                            0 <= q < mi + 1 && (#[trigger] tuples_view(ms@).subrange(
                                0,
                                mi + 1 as int,
                            )[q]) == u;
                        if q < mi {
                            assert(tuples_view(ms@).subrange(0, mi as int)[q] == u);
                            assert(ov.contains(u));
                            let m = choose|m: int| 0 <= m < ov.len() && (#[trigger] ov[m]) == u;
                            assert(tuples_view(out@)[m] == u);
                            assert(tuples_view(out@).contains(u));
                        } else {
                            assert(u == t@);
                            assert(tuples_view(out@).contains(u));
                        }
                    }
                }
            }
            mi += 1;
        }
        proof {
            assert forall|t: Seq<u64>|
                #![trigger tuples_view(out@).contains(t)]
                tuples_view(out@).contains(t) <==> disjunction_matches(
                g@,
                d@.subrange(0, ci + 1 as int),
                t,
            ) by {
                assert(tuples_view(ms@).subrange(0, ms@.len() as int) =~= tuples_view(ms@));
                if tuples_view(out@).contains(t) {
                    if disjunction_matches(g@, d@.subrange(0, ci as int), t) {
                        let i = choose|i: int|
                            0 <= i < ci && tuple_matches(
                                g@,
                                #[trigger] d@.subrange(0, ci as int)[i],
                                t,
                            );
                        assert(d@.subrange(0, ci + 1 as int)[i] == d@[i]);
                        assert(tuple_matches(g@, d@.subrange(0, ci + 1 as int)[i], t));
                    } else {
                        assert(tuples_view(ms@).contains(t));
                        assert(tuple_matches(g@, conj@, t));
                        assert(d@.subrange(0, ci + 1 as int)[ci as int] == d@[ci as int]);
                    }
                } else {
                    if disjunction_matches(g@, d@.subrange(0, ci + 1 as int), t) {
                        let i = choose|i: int|
                            0 <= i < ci + 1 && tuple_matches(
                                g@,
                                #[trigger] d@.subrange(0, ci + 1 as int)[i],
                                t,
                            );
                        if i < ci {
                            assert(d@.subrange(0, ci as int)[i] == d@[i]);
                            assert(tuple_matches(g@, d@.subrange(0, ci as int)[i], t));
                        } else {
                            assert(tuple_matches(g@, conj@, t));
                            assert(tuples_view(ms@).contains(t));
                        }
                    }
                }
            }
        }
        ci += 1;
    }
    proof {
        assert(d@.subrange(0, d@.len() as int) =~= d@);
    }
    out
}

/// Join completeness: for a two-node pattern with one constraint, the
/// assignments the matcher reports are exactly the cross product of the two
/// node predicates' candidate sets filtered by the constraint predicate.
pub proof fn lemma_join_completeness(g: AnnoGraphView, c: ConjunctionView, t: Seq<u64>)
    requires
        c.wf(),
        c.specs.len() == 2,
        c.constraints.len() == 1,
    ensures
        tuple_matches(g, c, t) <==> (t.len() == 2 && node_matches(g, c.specs[0], t[0])
            && node_matches(g, c.specs[1], t[1]) && edge_holds(
            g,
            c.constraints[0].op,
            t[c.constraints[0].pos_a as int],
            t[c.constraints[0].pos_b as int],
        )),
{
    if t.len() == 2 && node_matches(g, c.specs[0], t[0]) && node_matches(g, c.specs[1], t[1])
        && edge_holds(
        g,
        c.constraints[0].op,
        t[c.constraints[0].pos_a as int],
        t[c.constraints[0].pos_b as int],
    ) {
        assert forall|i: int| 0 <= i < 2 implies node_matches(g, c.specs[i], #[trigger] t[i]) by {
            if i == 0 {
            } else {
                assert(i == 1);
            }
        }
        assert(sat_upto(g, c, t, 2));
    }
    if tuple_matches(g, c, t) {
        assert(node_matches(g, c.specs[0], t[0]));
        assert(node_matches(g, c.specs[1], t[1]));
        assert(c.constraints[0].pos_a < 2 && c.constraints[0].pos_b < 2);
    }
}

} // verus!
