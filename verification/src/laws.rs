//! Chain-rule laws of the backward pass, proved over the `sweep` model that
//! `backwards` is specified against: whatever `backwards` returns as `Ok` is
//! exactly the graph these lemmas describe.

use vstd::prelude::*;

use crate::backward::{step, sweep};
use crate::math::fits_i64;
use crate::node::{EdgeRec, Node, Op};

verus! {

/// A leaf node as the primitives build it.
pub open spec fn leaf(id: usize, v: i64) -> Node {
    Node { id, value: v, gradient: 0, operator: None }
}

/// A non-leaf node with an already-seeded gradient accumulator.
pub open spec fn opnode(id: usize, v: i64, g: i64, op: Op) -> Node {
    Node { id, value: v, gradient: g, operator: Some(op) }
}

/// A node equal to `n` except for its gradient accumulator.
pub open spec fn regrade(n: Node, g: i64) -> Node {
    Node { gradient: g, ..n }
}

/// The gradient rule of addition: for any two leaf values, seeding the sum
/// node's gradient with `1` and running the backward sweep gives both
/// operands a gradient of exactly `1`.
pub proof fn lemma_add_backward(va: i64, vb: i64)
    requires
        fits_i64(va + vb),
    ensures
        ({
            let s = seq![leaf(0, va), leaf(1, vb), opnode(2, (va + vb) as i64, 1, Op::Plus)];
            let e = Map::<usize, EdgeRec>::empty().insert(
                2usize,
                EdgeRec { left: Some(0usize), right: Some(1usize) },
            );
            sweep(s, e, 0) == Some(
                seq![
                    regrade(leaf(0, va), 1),
                    regrade(leaf(1, vb), 1),
                    opnode(2, (va + vb) as i64, 1, Op::Plus),
                ],
            )
        }),
{
    let s = seq![leaf(0, va), leaf(1, vb), opnode(2, (va + vb) as i64, 1, Op::Plus)];
    let e = Map::<usize, EdgeRec>::empty().insert(
        2usize,
        EdgeRec { left: Some(0usize), right: Some(1usize) },
    );
    let t = seq![
        regrade(leaf(0, va), 1),
        regrade(leaf(1, vb), 1),
        opnode(2, (va + vb) as i64, 1, Op::Plus),
    ];
    assert(sweep(s, e, 3) == Some(s));
    assert(sweep(s, e, 2) == step(s, e, 2));
    assert(step(s, e, 2) == Some(s.update(0, regrade(leaf(0, va), 1)).update(
        1,
        regrade(leaf(1, vb), 1),
    )));
    let s2 = s.update(0, regrade(leaf(0, va), 1)).update(1, regrade(leaf(1, vb), 1));
    assert(!e.contains_key(1usize));
    assert(!e.contains_key(0usize));
    assert(sweep(s, e, 1) == Some(s2));
    assert(sweep(s, e, 0) == Some(s2));
    assert(s2 =~= t);
}

/// The gradient rule of multiplication: for any two leaf values, seeding the
/// product node's gradient with `1` and running the backward sweep gives
/// each operand the other operand's value as its gradient.
pub proof fn lemma_mul_backward(va: i64, vb: i64)
    requires
        fits_i64(va * vb),
    ensures
        ({
            let s = seq![leaf(0, va), leaf(1, vb), opnode(2, (va * vb) as i64, 1, Op::Mul)];
            let e = Map::<usize, EdgeRec>::empty().insert(
                2usize,
                EdgeRec { left: Some(0usize), right: Some(1usize) },
            );
            sweep(s, e, 0) == Some(
                seq![
                    regrade(leaf(0, va), vb),
                    regrade(leaf(1, vb), va),
                    opnode(2, (va * vb) as i64, 1, Op::Mul),
                ],
            )
        }),
{
    let s = seq![leaf(0, va), leaf(1, vb), opnode(2, (va * vb) as i64, 1, Op::Mul)];
    let e = Map::<usize, EdgeRec>::empty().insert(
        2usize,
        EdgeRec { left: Some(0usize), right: Some(1usize) },
    );
    let t = seq![
        regrade(leaf(0, va), vb),
        regrade(leaf(1, vb), va),
        opnode(2, (va * vb) as i64, 1, Op::Mul),
    ];
    assert(sweep(s, e, 3) == Some(s));
    assert(sweep(s, e, 2) == step(s, e, 2));
    assert(s[1].value * (s[2].gradient as int) == vb);
    assert(s[0].value * (s[2].gradient as int) == va);
    let s2 = s.update(0, regrade(leaf(0, va), vb)).update(1, regrade(leaf(1, vb), va));
    assert(step(s, e, 2) == Some(s2));
    assert(!e.contains_key(1usize));
    assert(!e.contains_key(0usize));
    assert(sweep(s, e, 1) == Some(s2));
    assert(sweep(s, e, 0) == Some(s2));
    assert(s2 =~= t);
}

/// The gradient rule of the rectified-linear operator: with the output
/// seeded at `1`, the operand's gradient becomes `1` exactly when the
/// rectified value is positive, and stays `0` otherwise.
pub proof fn lemma_relu_backward(v: i64)
    ensures
        ({
            let rv: i64 = if v > 0 {
                v
            } else {
                0
            };
            let s = seq![leaf(0, v), opnode(1, rv, 1, Op::Relu)];
            let e = Map::<usize, EdgeRec>::empty().insert(
                1usize,
                EdgeRec { left: Some(0usize), right: None },
            );
            sweep(s, e, 0) == Some(
                seq![
                    regrade(
                        leaf(0, v),
                        if v > 0 {
                            1
                        } else {
                            0
                        },
                    ),
                    opnode(1, rv, 1, Op::Relu),
                ],
            )
        }),
{
    let rv: i64 = if v > 0 {
        v
    } else {
        0
    };
    let s = seq![leaf(0, v), opnode(1, rv, 1, Op::Relu)];
    let e = Map::<usize, EdgeRec>::empty().insert(
        1usize,
        EdgeRec { left: Some(0usize), right: None },
    );
    let t = seq![
        regrade(
            leaf(0, v),
            if v > 0 {
                1
            } else {
                0
            },
        ),
        opnode(1, rv, 1, Op::Relu),
    ];
    assert(sweep(s, e, 2) == Some(s));
    assert(sweep(s, e, 1) == step(s, e, 1));
    if v > 0 {
        let s1 = s.update(0, regrade(leaf(0, v), 1));
        assert(step(s, e, 1) == Some(s1));
        assert(!e.contains_key(0usize));
        assert(sweep(s, e, 0) == Some(s1));
        assert(s1 =~= t);
    } else {
        assert(step(s, e, 1) == Some(s));
        assert(!e.contains_key(0usize));
        assert(sweep(s, e, 0) == Some(s));
        assert(s =~= t);
    }
}

/// Gradients accumulate additively across backward passes: running the sweep
/// a second time over an already-swept sum graph, without re-zeroing, adds
/// the same contributions again, so both operand gradients double while the
/// seed itself keeps its value.
pub proof fn lemma_backward_accumulates(va: i64, vb: i64)
    requires
        fits_i64(va + vb),
    ensures
        ({
            let e = Map::<usize, EdgeRec>::empty().insert(
                2usize,
                EdgeRec { left: Some(0usize), right: Some(1usize) },
            );
            let once = seq![
                regrade(leaf(0, va), 1),
                regrade(leaf(1, vb), 1),
                opnode(2, (va + vb) as i64, 1, Op::Plus),
            ];
            sweep(once, e, 0) == Some(
                seq![
                    regrade(leaf(0, va), 2),
                    regrade(leaf(1, vb), 2),
                    opnode(2, (va + vb) as i64, 1, Op::Plus),
                ],
            )
        }),
{
    let e = Map::<usize, EdgeRec>::empty().insert(
        2usize,
        EdgeRec { left: Some(0usize), right: Some(1usize) },
    );
    let s = seq![
        regrade(leaf(0, va), 1),
        regrade(leaf(1, vb), 1),
        opnode(2, (va + vb) as i64, 1, Op::Plus),
    ];
    let t = seq![
        regrade(leaf(0, va), 2),
        regrade(leaf(1, vb), 2),
        opnode(2, (va + vb) as i64, 1, Op::Plus),
    ];
    assert(sweep(s, e, 3) == Some(s));
    assert(sweep(s, e, 2) == step(s, e, 2));
    let s2 = s.update(0, regrade(leaf(0, va), 2)).update(1, regrade(leaf(1, vb), 2));
    assert(step(s, e, 2) == Some(s2));
    assert(!e.contains_key(1usize));
    assert(!e.contains_key(0usize));
    assert(sweep(s, e, 1) == Some(s2));
    assert(sweep(s, e, 0) == Some(s2));
    assert(s2 =~= t);
}

/// Reverse-topological correctness on a diamond: with `c = a + b`,
/// `d = a * b`, `e = c + d` and the top seeded at `1`, both paths through
/// each leaf are accumulated before anything below would propagate, so `a`
/// ends at `1 + b.value` and `b` at `1 + a.value`.
pub proof fn lemma_diamond_backward(va: i64, vb: i64)
    requires
        fits_i64(va + vb),
        fits_i64(va * vb),
        fits_i64((va + vb) + (va * vb)),
        fits_i64(1 + va),
        fits_i64(1 + vb),
    ensures
        ({
            let s = seq![
                leaf(0, va),
                leaf(1, vb),
                opnode(2, (va + vb) as i64, 0, Op::Plus),
                opnode(3, (va * vb) as i64, 0, Op::Mul),
                opnode(4, ((va + vb) + (va * vb)) as i64, 1, Op::Plus),
            ];
            let e = Map::<usize, EdgeRec>::empty().insert(
                2usize,
                EdgeRec { left: Some(0usize), right: Some(1usize) },
            ).insert(3usize, EdgeRec { left: Some(0usize), right: Some(1usize) }).insert(
                4usize,
                EdgeRec { left: Some(2usize), right: Some(3usize) },
            );
            sweep(s, e, 0) == Some(
                seq![
                    regrade(leaf(0, va), (1 + vb) as i64),
                    regrade(leaf(1, vb), (1 + va) as i64),
                    opnode(2, (va + vb) as i64, 1, Op::Plus),
                    opnode(3, (va * vb) as i64, 1, Op::Mul),
                    opnode(4, ((va + vb) + (va * vb)) as i64, 1, Op::Plus),
                ],
            )
        }),
{
    let s = seq![
        leaf(0, va),
        leaf(1, vb),
        opnode(2, (va + vb) as i64, 0, Op::Plus),
        opnode(3, (va * vb) as i64, 0, Op::Mul),
        opnode(4, ((va + vb) + (va * vb)) as i64, 1, Op::Plus),
    ];
    let e = Map::<usize, EdgeRec>::empty().insert(
        2usize,
        EdgeRec { left: Some(0usize), right: Some(1usize) },
    ).insert(3usize, EdgeRec { left: Some(0usize), right: Some(1usize) }).insert(
        4usize,
        EdgeRec { left: Some(2usize), right: Some(3usize) },
    );
    let t = seq![
        regrade(leaf(0, va), (1 + vb) as i64),
        regrade(leaf(1, vb), (1 + va) as i64),
        opnode(2, (va + vb) as i64, 1, Op::Plus),
        opnode(3, (va * vb) as i64, 1, Op::Mul),
        opnode(4, ((va + vb) + (va * vb)) as i64, 1, Op::Plus),
    ];
    assert(sweep(s, e, 5) == Some(s));

    // The seed pushes 1 onto both interior nodes.
    assert(sweep(s, e, 4) == step(s, e, 4));
    let s4 = s.update(2, opnode(2, (va + vb) as i64, 1, Op::Plus)).update(
        3,
        opnode(3, (va * vb) as i64, 1, Op::Mul),
    );
    assert(step(s, e, 4) == Some(s4));

    // The product node contributes each operand's opposite value.
    assert(sweep(s, e, 3) == step(s4, e, 3));
    assert(s4[1].value * (s4[3].gradient as int) == vb);
    assert(s4[0].value * (s4[3].gradient as int) == va);
    let s3 = s4.update(0, regrade(leaf(0, va), vb)).update(1, regrade(leaf(1, vb), va));
    assert(step(s4, e, 3) == Some(s3));

    // The sum node then adds 1 more onto each leaf.
    assert(sweep(s, e, 2) == step(s3, e, 2));
    let s2 = s3.update(0, regrade(leaf(0, va), (vb + 1) as i64)).update(
        1,
        regrade(leaf(1, vb), (va + 1) as i64),
    );
    assert(step(s3, e, 2) == Some(s2));

    assert(!e.contains_key(1usize));
    assert(!e.contains_key(0usize));
    assert(sweep(s, e, 1) == Some(s2));
    assert(sweep(s, e, 0) == Some(s2));
    assert(s2 =~= t);
}

} // verus!
