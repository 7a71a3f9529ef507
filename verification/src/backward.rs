//! The backward (gradient-propagation) pass and its mathematical model.
//!
//! Operand identifiers are always strictly smaller than the node that
//! references them, so descending identifier order is a reverse-topological
//! order of the graph: when a node is processed, every node that could
//! contribute to its gradient has already been processed. The model below
//! (`sweep`) therefore processes every node once, from the highest identifier
//! down to zero, adding each node's operator-specific chain-rule
//! contributions to its operands' gradient accumulators. A node whose
//! gradient is zero contributes nothing, so nodes outside the seeded
//! subgraph leave every gradient as it was.

use vstd::prelude::*;

use crate::math::{fits_i64, pow_all_fits, pow_int};
use crate::node::{EdgeMap, EdgeRec, GraphError, Node, Op};

verus! {

broadcast use vstd::std_specs::hash::group_hash_axioms;

/// The arity of an edge record matches its node's operator tag: both
/// operands for `Plus`, `Mul` and `Pow`, the left one alone for `Relu`. A
/// leaf owns no edge record at all.
pub open spec fn record_matches(operator: Option<Op>, r: EdgeRec) -> bool {
    match operator {
        Some(Op::Plus) => r.left is Some && r.right is Some,
        Some(Op::Mul) => r.left is Some && r.right is Some,
        Some(Op::Pow) => r.left is Some && r.right is Some,
        Some(Op::Relu) => r.left is Some && r.right is None,
        None => false,
    }
}

/// Every operand identifier of the record exists in an arena of `n` nodes.
pub open spec fn operands_in_range(r: EdgeRec, n: nat) -> bool {
    &&& match r.left {
        Some(a) => a < n,
        None => true,
    }
    &&& match r.right {
        Some(b) => b < n,
        None => true,
    }
}

/// Every edge record of the graph has the arity of its node's operator.
pub open spec fn shape_ok(nodes: Seq<Node>, edges: Map<usize, EdgeRec>) -> bool {
    forall|i: usize|
        i < nodes.len() && #[trigger] edges.contains_key(i) ==> record_matches(
            nodes[i as int].operator,
            edges[i],
        )
}

/// Every edge record of the graph references only identifiers present in the
/// arena.
pub open spec fn operands_ok(nodes: Seq<Node>, edges: Map<usize, EdgeRec>) -> bool {
    forall|i: usize|
        i < nodes.len() && #[trigger] edges.contains_key(i) ==> operands_in_range(
            edges[i],
            nodes.len(),
        )
}

/// Adds `d` to the gradient accumulator of node `j`; `None` if the sum
/// leaves the `i64` range.
pub open spec fn bump(s: Seq<Node>, j: int, d: int) -> Option<Seq<Node>> {
    let g = s[j].gradient + d;
    if fits_i64(g) {
        Some(s.update(j, Node { gradient: g as i64, ..s[j] }))
    } else {
        None
    }
}

/// Chain rule of `Plus`: the output gradient flows to both operands
/// unchanged.
pub open spec fn step_plus(s: Seq<Node>, i: int, a: int, b: int) -> Option<Seq<Node>> {
    let g = s[i].gradient as int;
    match bump(s, a, g) {
        Some(s1) => bump(s1, b, g),
        None => None,
    }
}

/// Chain rule of `Mul`: each operand receives the other operand's value
/// times the output gradient.
pub open spec fn step_mul(s: Seq<Node>, i: int, a: int, b: int) -> Option<Seq<Node>> {
    let g = s[i].gradient as int;
    let d1 = s[b].value * g;
    if !fits_i64(d1) {
        None
    } else {
        match bump(s, a, d1) {
            Some(s1) => {
                let d2 = s[a].value * g;
                if !fits_i64(d2) {
                    None
                } else {
                    bump(s1, b, d2)
                }
            },
            None => None,
        }
    }
}

/// Chain rule of `Pow`, for the base operand only: with exponent `e` it
/// receives `e * base^(e - 1)` times the output gradient. The derivative
/// with respect to the exponent needs a logarithm, which integer arithmetic
/// does not have, so the exponent operand receives no contribution; an
/// exponent below one likewise contributes nothing (the primitives never
/// build a negative one, and a constant power of zero has derivative zero).
pub open spec fn step_pow(s: Seq<Node>, i: int, a: int, b: int) -> Option<Seq<Node>> {
    let g = s[i].gradient as int;
    let e = s[b].value as int;
    if e <= 0 {
        Some(s)
    } else if !pow_all_fits(s[a].value as int, e - 1) {
        None
    } else {
        let d1 = e * pow_int(s[a].value as int, (e - 1) as nat);
        if !fits_i64(d1) {
            None
        } else {
            let d = d1 * g;
            if !fits_i64(d) {
                None
            } else {
                bump(s, a, d)
            }
        }
    }
}

/// Chain rule of `Relu`: the output gradient flows to the operand exactly
/// when the output value is positive.
pub open spec fn step_relu(s: Seq<Node>, i: int, a: int) -> Option<Seq<Node>> {
    if s[i].value > 0 {
        bump(s, a, s[i].gradient as int)
    } else {
        Some(s)
    }
}

/// One node processed: node `i`'s current gradient is pushed onto its
/// operands by its operator's chain rule. A node without an edge record, and
/// a record whose arity does not match (ruled out before any sweep is
/// taken), leaves the graph unchanged.
pub open spec fn step(s: Seq<Node>, edges: Map<usize, EdgeRec>, i: int) -> Option<Seq<Node>> {
    if 0 <= i < s.len() && edges.contains_key(i as usize) {
        let r = edges[i as usize];
        match (s[i].operator, r.left, r.right) {
            (Some(Op::Plus), Some(a), Some(b)) => step_plus(s, i, a as int, b as int),
            (Some(Op::Mul), Some(a), Some(b)) => step_mul(s, i, a as int, b as int),
            (Some(Op::Pow), Some(a), Some(b)) => step_pow(s, i, a as int, b as int),
            (Some(Op::Relu), Some(a), None) => step_relu(s, i, a as int),
            _ => Some(s),
        }
    } else {
        Some(s)
    }
}

/// The graph after the nodes with identifiers from `s.len() - 1` down to `i`
/// have each been processed once, in that (reverse-topological) order;
/// `None` if some gradient contribution left the `i64` range on the way.
pub open spec fn sweep(s: Seq<Node>, edges: Map<usize, EdgeRec>, i: int) -> Option<Seq<Node>>
    decreases s.len() - i,
{
    if i < 0 || i >= s.len() {
        Some(s)
    } else {
        match sweep(s, edges, i + 1) {
            Some(t) => step(t, edges, i),
            None => None,
        }
    }
}

/// Once a sweep has overflowed, the sweeps that continue below it overflow
/// too.
pub proof fn lemma_sweep_none(s: Seq<Node>, edges: Map<usize, EdgeRec>, i: int, j: int)
    requires
        0 <= j <= i,
        sweep(s, edges, i) is None,
    ensures
        sweep(s, edges, j) is None,
    decreases i - j,
{
    if j < i {
        lemma_sweep_none(s, edges, i, j + 1);
    }
}

/// `s` with its gradient accumulators replaced by `gs`, all other fields
/// kept.
pub open spec fn with_grads(s: Seq<Node>, gs: Seq<i64>) -> Seq<Node> {
    Seq::new(s.len(), |j: int| Node { gradient: gs[j], ..s[j] })
}

/// Runs gradient propagation over the whole graph, as `sweep` describes:
/// every node is processed exactly once, in descending identifier order, and
/// pushes its accumulated gradient onto its operands by its operator's chain
/// rule.
///
/// The structure is validated first and the pass is all-or-nothing: on every
/// error the graph is left exactly as it was. Edge records keyed by an
/// identifier absent from the arena are never dereferenced and are ignored.
pub fn backwards(map: &mut EdgeMap, nodes: &mut Vec<Node>) -> (r: Result<(), GraphError>)
    ensures
        final(map)@ == old(map)@,
        match r {
            Ok(()) => {
                &&& shape_ok(old(nodes)@, old(map)@)
                &&& operands_ok(old(nodes)@, old(map)@)
                &&& sweep(old(nodes)@, old(map)@, 0) == Some(final(nodes)@)
                &&& final(nodes)@.len() == old(nodes)@.len()
                &&& forall|k: int|
                    0 <= k < old(nodes)@.len() ==> {
                        let nd = #[trigger] final(nodes)@[k];
                        &&& nd.id == old(nodes)@[k].id
                        &&& nd.value == old(nodes)@[k].value
                        &&& nd.operator == old(nodes)@[k].operator
                    }
            },
            Err(GraphError::MalformedEdgeRecord) => {
                &&& !shape_ok(old(nodes)@, old(map)@)
                &&& final(nodes)@ == old(nodes)@
            },
            Err(GraphError::MissingNode) => {
                &&& shape_ok(old(nodes)@, old(map)@)
                &&& !operands_ok(old(nodes)@, old(map)@)
                &&& final(nodes)@ == old(nodes)@
            },
            Err(GraphError::Overflow) => {
                &&& shape_ok(old(nodes)@, old(map)@)
                &&& operands_ok(old(nodes)@, old(map)@)
                &&& sweep(old(nodes)@, old(map)@, 0) is None
                &&& final(nodes)@ == old(nodes)@
            },
            _ => false,
        },
{
    let n = nodes.len();

    // Validation: every record's arity matches its node's operator tag.
    let mut i: usize = 0;
    while i < n
        invariant
            i <= n,
            n == nodes@.len(),
            forall|j: usize|
                j < i && #[trigger] map@.contains_key(j) ==> record_matches(
                    nodes@[j as int].operator,
                    map@[j],
                ),
        decreases n - i,
    {
        match map.get(&i) {
            Some(r) => {
                let ok = match (nodes[i].operator, r.left, r.right) {
                    (Some(Op::Plus), Some(_), Some(_)) => true,
                    (Some(Op::Mul), Some(_), Some(_)) => true,
                    (Some(Op::Pow), Some(_), Some(_)) => true,
                    (Some(Op::Relu), Some(_), None) => true,
                    _ => false,
                };
                if !ok {
                    proof {
                        assert(map@.contains_key(i) && !record_matches(
                            nodes@[i as int].operator,
                            map@[i],
                        ));
                    }
                    return Err(GraphError::MalformedEdgeRecord);
                }
            },
            None => {},
        }
        i = i + 1;
    }

    // Validation: every operand identifier exists in the arena.
    let mut i: usize = 0;
    while i < n
        invariant
            i <= n,
            n == nodes@.len(),
            shape_ok(nodes@, map@),
            forall|j: usize|
                j < i && #[trigger] map@.contains_key(j) ==> operands_in_range(
                    map@[j],
                    nodes@.len(),
                ),
        decreases n - i,
    {
        match map.get(&i) {
            Some(r) => {
                let left_ok = match r.left {
                    Some(a) => a < n,
                    None => true,
                };
                let right_ok = match r.right {
                    Some(b) => b < n,
                    None => true,
                };
                if !left_ok || !right_ok {
                    proof {
                        assert(map@.contains_key(i) && !operands_in_range(map@[i], nodes@.len()));
                    }
                    return Err(GraphError::MissingNode);
                }
            },
            None => {},
        }
        i = i + 1;
    }

    // Propagation over a scratch gradient vector, so that an overflow midway
    // leaves the arena untouched.
    let mut grads: Vec<i64> = Vec::new();
    let mut j: usize = 0;
    while j < n
        invariant
            j <= n,
            n == nodes@.len(),
            grads@.len() == j,
            forall|k: int| 0 <= k < j ==> grads@[k] == nodes@[k].gradient,
        decreases n - j,
    {
        grads.push(nodes[j].gradient);
        j = j + 1;
    }
    proof {
        assert(with_grads(nodes@, grads@) =~= nodes@);
    }

    let mut i: usize = n;
    while i > 0
        invariant
            i <= n,
            n == nodes@.len(),
            grads@.len() == n,
            shape_ok(nodes@, map@),
            operands_ok(nodes@, map@),
            sweep(nodes@, map@, i as int) == Some(with_grads(nodes@, grads@)),
        decreases i,
    {
        let idx = i - 1;
        let ghost s_cur = with_grads(nodes@, grads@);
        match map.get(&idx) {
            Some(r) => {
                let g = grads[idx];
                match (nodes[idx].operator, r.left, r.right) {
                    (Some(Op::Plus), Some(a), Some(b)) => {
                        let na = match grads[a].checked_add(g) {
                            Some(v) => v,
                            None => {
                                proof {
                                    lemma_sweep_none(nodes@, map@, idx as int, 0);
                                }
                                return Err(GraphError::Overflow);
                            },
                        };
                        grads[a] = na;
                        proof {
                            assert(with_grads(nodes@, grads@) =~= bump(
                                s_cur,
                                a as int,
                                s_cur[idx as int].gradient as int,
                            )->Some_0);
                        }
                        let ghost s_mid = with_grads(nodes@, grads@);
                        let nb = match grads[b].checked_add(g) {
                            Some(v) => v,
                            None => {
                                proof {
                                    lemma_sweep_none(nodes@, map@, idx as int, 0);
                                }
                                return Err(GraphError::Overflow);
                            },
                        };
                        grads[b] = nb;
                        proof {
                            assert(with_grads(nodes@, grads@) =~= bump(
                                s_mid,
                                b as int,
                                s_cur[idx as int].gradient as int,
                            )->Some_0);
                        }
                    },
                    (Some(Op::Mul), Some(a), Some(b)) => {
                        let d1 = match nodes[b].value.checked_mul(g) {
                            Some(v) => v,
                            None => {
                                proof {
                                    lemma_sweep_none(nodes@, map@, idx as int, 0);
                                }
                                return Err(GraphError::Overflow);
                            },
                        };
                        let na = match grads[a].checked_add(d1) {
                            Some(v) => v,
                            None => {
                                proof {
                                    lemma_sweep_none(nodes@, map@, idx as int, 0);
                                }
                                return Err(GraphError::Overflow);
                            },
                        };
                        grads[a] = na;
                        proof {
                            assert(with_grads(nodes@, grads@) =~= bump(
                                s_cur,
                                a as int,
                                d1 as int,
                            )->Some_0);
                        }
                        let ghost s_mid = with_grads(nodes@, grads@);
                        let d2 = match nodes[a].value.checked_mul(g) {
                            Some(v) => v,
                            None => {
                                proof {
                                    lemma_sweep_none(nodes@, map@, idx as int, 0);
                                }
                                return Err(GraphError::Overflow);
                            },
                        };
                        let nb = match grads[b].checked_add(d2) {
                            Some(v) => v,
                            None => {
                                proof {
                                    lemma_sweep_none(nodes@, map@, idx as int, 0);
                                }
                                return Err(GraphError::Overflow);
                            },
                        };
                        grads[b] = nb;
                        proof {
                            assert(with_grads(nodes@, grads@) =~= bump(
                                s_mid,
                                b as int,
                                d2 as int,
                            )->Some_0);
                        }
                    },
                    (Some(Op::Pow), Some(a), Some(b)) => {
                        let e = nodes[b].value;
                        if e > 0 {
                            let p = match crate::math::ipow_checked(nodes[a].value, e - 1) {
                                Some(v) => v,
                                None => {
                                    proof {
                                        lemma_sweep_none(nodes@, map@, idx as int, 0);
                                    }
                                    return Err(GraphError::Overflow);
                                },
                            };
                            let d1 = match e.checked_mul(p) {
                                Some(v) => v,
                                None => {
                                    proof {
                                        lemma_sweep_none(nodes@, map@, idx as int, 0);
                                    }
                                    return Err(GraphError::Overflow);
                                },
                            };
                            let d = match d1.checked_mul(g) {
                                Some(v) => v,
                                None => {
                                    proof {
                                        lemma_sweep_none(nodes@, map@, idx as int, 0);
                                    }
                                    return Err(GraphError::Overflow);
                                },
                            };
                            let na = match grads[a].checked_add(d) {
                                Some(v) => v,
                                None => {
                                    proof {
                                        lemma_sweep_none(nodes@, map@, idx as int, 0);
                                    }
                                    return Err(GraphError::Overflow);
                                },
                            };
                            grads[a] = na;
                            proof {
                                assert(with_grads(nodes@, grads@) =~= bump(
                                    s_cur,
                                    a as int,
                                    d as int,
                                )->Some_0);
                            }
                        }
                    },
                    (Some(Op::Relu), Some(a), None) => {
                        if nodes[idx].value > 0 {
                            let na = match grads[a].checked_add(g) {
                                Some(v) => v,
                                None => {
                                    proof {
                                        lemma_sweep_none(nodes@, map@, idx as int, 0);
                                    }
                                    return Err(GraphError::Overflow);
                                },
                            };
                            grads[a] = na;
                            proof {
                                assert(with_grads(nodes@, grads@) =~= bump(
                                    s_cur,
                                    a as int,
                                    s_cur[idx as int].gradient as int,
                                )->Some_0);
                            }
                        }
                    },
                    _ => {},
                }
            },
            None => {},
        }
        proof {
            assert(sweep(nodes@, map@, idx as int) == Some(with_grads(nodes@, grads@)));
        }
        i = idx;
    }

    // Commit the propagated gradients to the arena.
    let ghost done = with_grads(old(nodes)@, grads@);
    let mut j: usize = 0;
    while j < n
        invariant
            j <= n,
            n == nodes@.len(),
            n == old(nodes)@.len(),
            grads@.len() == n,
            done == with_grads(old(nodes)@, grads@),
            forall|k: int| 0 <= k < j ==> nodes@[k] == done[k],
            forall|k: int| j <= k < n ==> nodes@[k] == old(nodes)@[k],
        decreases n - j,
    {
        nodes[j].gradient = grads[j];
        proof {
            assert(nodes@[j as int] == done[j as int]);
        }
        j = j + 1;
    }
    proof {
        assert(nodes@ =~= done);
    }
    Ok(())
}

} // verus!
