//! The neuron/layer composition layer: it owns leaf identifiers and wires
//! them into the graph through the operator primitives, and contains no
//! graph logic of its own.

use vstd::prelude::*;

use crate::math::fits_i64;
use crate::node::{new_node, EdgeMap, EdgeRec, GraphError, Node, Op};

verus! {

/// Relies on `rand::random_range` over the thread-local generator: a sample
/// from a nonempty inclusive range lies within that range.
#[verifier::external_body]
fn random_in(lo: i64, hi: i64) -> (r: i64)
    requires
        lo <= hi,
    ensures
        lo <= r <= hi,
{
    rand::random_range(lo..=hi)
}

/// One neuron: the identifiers of its weight leaves and of its bias leaf.
pub struct Neuron {
    pub weights: Vec<usize>,
    pub bias: usize,
}

/// Every identifier the neuron or the input vector names exists in an arena
/// of `n0` nodes.
pub open spec fn ids_ok(w: Seq<usize>, bias: usize, x: Seq<usize>, n0: nat) -> bool {
    &&& forall|k: int| 0 <= k < x.len() ==> #[trigger] x[k] < n0
    &&& forall|k: int| 0 <= k < w.len() ==> #[trigger] w[k] < n0
    &&& bias < n0
}

/// Value of the product node pairing input `k` with weight `k`.
pub open spec fn product_value(nodes: Seq<Node>, x: Seq<usize>, w: Seq<usize>, k: int) -> int {
    nodes[x[k] as int].value * nodes[w[k] as int].value
}

/// Value of the neuron's sum node: the bias added to the last of the
/// products.
pub open spec fn pre_activation(nodes: Seq<Node>, w: Seq<usize>, bias: usize, x: Seq<usize>) -> int {
    nodes[bias as int].value + product_value(nodes, x, w, x.len() - 1)
}

/// Every scalar the neuron's wiring computes stays within the `i64` range.
pub open spec fn connect_fits(nodes: Seq<Node>, w: Seq<usize>, bias: usize, x: Seq<usize>) -> bool {
    &&& forall|k: int| 0 <= k < x.len() ==> fits_i64(#[trigger] product_value(nodes, x, w, k))
    &&& fits_i64(pre_activation(nodes, w, bias, x))
}

/// Forward value of the neuron's output node.
pub open spec fn neuron_out_value(nodes: Seq<Node>, w: Seq<usize>, bias: usize, x: Seq<usize>) -> int {
    crate::node::relu_value(pre_activation(nodes, w, bias, x))
}

/// The product node a neuron's wiring appends for pair `k`, when the block
/// of appended nodes starts at identifier `base` and values are read from
/// the arena `s0` the identifiers point into.
pub open spec fn product_node(s0: Seq<Node>, x: Seq<usize>, w: Seq<usize>, base: int, k: int) -> Node {
    Node {
        id: (base + k) as usize,
        value: product_value(s0, x, w, k) as i64,
        gradient: 0,
        operator: Some(Op::Mul),
    }
}

/// The `x.len() + 2` nodes a neuron's wiring appends, as they stand in the
/// arena `s` starting at identifier `base`: one product per input/weight
/// pair in order, then the sum, then the rectified output.
pub open spec fn block_built(s0: Seq<Node>, s: Seq<Node>, nrn: Neuron, x: Seq<usize>, base: int) -> bool {
    let m = x.len() as int;
    &&& forall|k: int| 0 <= k < m ==> s[base + k] == #[trigger] product_node(s0, x, nrn.weights@, base, k)
    &&& s[base + m] == (Node {
        id: (base + m) as usize,
        value: pre_activation(s0, nrn.weights@, nrn.bias, x) as i64,
        gradient: 0,
        operator: Some(Op::Plus),
    })
    &&& s[base + m + 1] == (Node {
        id: (base + m + 1) as usize,
        value: neuron_out_value(s0, nrn.weights@, nrn.bias, x) as i64,
        gradient: 0,
        operator: Some(Op::Relu),
    })
}

/// The wiring scalars of a neuron depend only on the nodes its identifiers
/// name, so two arenas that agree on those nodes agree on every wiring
/// scalar.
pub proof fn lemma_connect_prefix(
    s1: Seq<Node>,
    s2: Seq<Node>,
    w: Seq<usize>,
    bias: usize,
    x: Seq<usize>,
)
    requires
        ids_ok(w, bias, x, s1.len()),
        w.len() == x.len(),
        x.len() >= 1,
        s1.len() <= s2.len(),
        forall|k: int| 0 <= k < s1.len() ==> s2[k] == s1[k],
    ensures
        forall|k: int|
            0 <= k < x.len() ==> #[trigger] product_value(s2, x, w, k) == product_value(
                s1,
                x,
                w,
                k,
            ),
        pre_activation(s2, w, bias, x) == pre_activation(s1, w, bias, x),
        connect_fits(s2, w, bias, x) == connect_fits(s1, w, bias, x),
        neuron_out_value(s2, w, bias, x) == neuron_out_value(s1, w, bias, x),
{
    assert forall|k: int|
        0 <= k < x.len() implies #[trigger] product_value(s2, x, w, k) == product_value(
        s1,
        x,
        w,
        k,
    ) by {
        assert(s2[x[k] as int] == s1[x[k] as int]);
        assert(s2[w[k] as int] == s1[w[k] as int]);
    }
    assert(s2[bias as int] == s1[bias as int]);
    if connect_fits(s1, w, bias, x) {
        assert forall|k: int|
            0 <= k < x.len() implies fits_i64(#[trigger] product_value(s2, x, w, k)) by {
            assert(fits_i64(product_value(s1, x, w, k)));
        }
        assert(connect_fits(s2, w, bias, x));
    }
    if connect_fits(s2, w, bias, x) {
        assert forall|k: int|
            0 <= k < x.len() implies fits_i64(#[trigger] product_value(s1, x, w, k)) by {
            assert(fits_i64(product_value(s2, x, w, k)));
        }
        assert(connect_fits(s1, w, bias, x));
    }
}

/// A block of wired nodes stays in place when the arena only grows above
/// it.
pub proof fn lemma_block_preserved(
    s0: Seq<Node>,
    s1: Seq<Node>,
    s2: Seq<Node>,
    nrn: Neuron,
    x: Seq<usize>,
    base: int,
)
    requires
        block_built(s0, s1, nrn, x, base),
        0 <= base,
        base + x.len() + 2 <= s1.len(),
        s1.len() <= s2.len(),
        forall|k: int| 0 <= k < s1.len() ==> s2[k] == s1[k],
    ensures
        block_built(s0, s2, nrn, x, base),
{
    assert forall|k: int|
        0 <= k < x.len() implies s2[base + k] == #[trigger] product_node(
        s0,
        x,
        nrn.weights@,
        base,
        k,
    ) by {
        assert(s2[base + k] == s1[base + k]);
    }
    assert(s2[base + x.len()] == s1[base + x.len()]);
    assert(s2[base + x.len() + 1] == s1[base + x.len() + 1]);
}

/// A block wired against a grown arena is the same block against the
/// prefix that holds every node its identifiers name.
pub proof fn lemma_block_transfer(
    s1: Seq<Node>,
    s2: Seq<Node>,
    s: Seq<Node>,
    nrn: Neuron,
    x: Seq<usize>,
    base: int,
)
    requires
        ids_ok(nrn.weights@, nrn.bias, x, s1.len()),
        nrn.weights@.len() == x.len(),
        x.len() >= 1,
        s1.len() <= s2.len(),
        forall|k: int| 0 <= k < s1.len() ==> s2[k] == s1[k],
        block_built(s2, s, nrn, x, base),
    ensures
        block_built(s1, s, nrn, x, base),
{
    lemma_connect_prefix(s1, s2, nrn.weights@, nrn.bias, x);
    assert forall|k: int|
        0 <= k < x.len() implies s[base + k] == #[trigger] product_node(
        s1,
        x,
        nrn.weights@,
        base,
        k,
    ) by {
        assert(s[base + k] == product_node(s2, x, nrn.weights@, base, k));
        assert(product_value(s2, x, nrn.weights@, k) == product_value(s1, x, nrn.weights@, k));
    }
}

impl Neuron {
    /// Fresh leaves for `count_in` weights and one bias, each drawn
    /// uniformly from `[-1, 1]`.
    pub fn new(nodes: &mut Vec<Node>, count_in: u64) -> (nrn: Neuron)
        ensures
            final(nodes)@.len() == old(nodes)@.len() + count_in + 1,
            forall|k: int| 0 <= k < old(nodes)@.len() ==> final(nodes)@[k] == old(nodes)@[k],
            forall|k: int|
                old(nodes)@.len() <= k < final(nodes)@.len() ==> {
                    let nd = #[trigger] final(nodes)@[k];
                    &&& nd.id == k
                    &&& nd.operator is None
                    &&& nd.gradient == 0
                    &&& -1 <= nd.value <= 1
                },
            nrn.weights@.len() == count_in,
            forall|k: int| 0 <= k < count_in ==> #[trigger] nrn.weights@[k] == old(nodes)@.len() + k,
            nrn.bias == old(nodes)@.len() + count_in,
    {
        let mut weights: Vec<usize> = Vec::new();
        let mut i: u64 = 0;
        while i < count_in
            invariant
                i <= count_in,
                nodes@.len() == old(nodes)@.len() + i,
                forall|k: int| 0 <= k < old(nodes)@.len() ==> nodes@[k] == old(nodes)@[k],
                forall|k: int|
                    old(nodes)@.len() <= k < nodes@.len() ==> {
                        let nd = #[trigger] nodes@[k];
                        &&& nd.id == k
                        &&& nd.operator is None
                        &&& nd.gradient == 0
                        &&& -1 <= nd.value <= 1
                    },
                weights@.len() == i,
                forall|k: int| 0 <= k < i ==> #[trigger] weights@[k] == old(nodes)@.len() + k,
            decreases count_in - i,
        {
            let value = random_in(-1, 1);
            let id = new_node(nodes, value);
            weights.push(id);
            i = i + 1;
        }
        let bias_value = random_in(-1, 1);
        let bias = new_node(nodes, bias_value);
        Neuron { weights, bias }
    }

    /// Fresh leaves holding the given weight and bias values; the
    /// deterministic counterpart of `new`, for reproducible initialization.
    pub fn with_weights(nodes: &mut Vec<Node>, weight_values: &Vec<i64>, bias_value: i64) -> (nrn:
        Neuron)
        ensures
            final(nodes)@.len() == old(nodes)@.len() + weight_values@.len() + 1,
            forall|k: int| 0 <= k < old(nodes)@.len() ==> final(nodes)@[k] == old(nodes)@[k],
            forall|k: int|
                0 <= k < weight_values@.len() ==> final(nodes)@[old(nodes)@.len() + k] == (Node {
                    id: (old(nodes)@.len() + k) as usize,
                    value: weight_values@[k],
                    gradient: 0,
                    operator: None,
                }),
            final(nodes)@[old(nodes)@.len() + weight_values@.len() as int] == (Node {
                id: (old(nodes)@.len() + weight_values@.len()) as usize,
                value: bias_value,
                gradient: 0,
                operator: None,
            }),
            nrn.weights@.len() == weight_values@.len(),
            forall|k: int|
                0 <= k < weight_values@.len() ==> #[trigger] nrn.weights@[k] == old(nodes)@.len()
                    + k,
            nrn.bias == old(nodes)@.len() + weight_values@.len(),
    {
        let mut weights: Vec<usize> = Vec::new();
        let mut i: usize = 0;
        while i < weight_values.len()
            invariant
                i <= weight_values@.len(),
                nodes@.len() == old(nodes)@.len() + i,
                forall|k: int| 0 <= k < old(nodes)@.len() ==> nodes@[k] == old(nodes)@[k],
                forall|k: int|
                    0 <= k < i ==> nodes@[old(nodes)@.len() + k] == (Node {
                        id: (old(nodes)@.len() + k) as usize,
                        value: weight_values@[k],
                        gradient: 0,
                        operator: None,
                    }),
                weights@.len() == i,
                forall|k: int| 0 <= k < i ==> #[trigger] weights@[k] == old(nodes)@.len() + k,
            decreases weight_values@.len() - i,
        {
            let id = new_node(nodes, weight_values[i]);
            weights.push(id);
            i = i + 1;
        }
        let bias = new_node(nodes, bias_value);
        Neuron { weights, bias }
    }

    /// Wires the neuron into the graph: one product node per input paired
    /// with its weight, the bias added to the last of those products, and
    /// the sum rectified; returns the rectified node's identifier.
    ///
    /// The construction is all-or-nothing for missing operands, which are
    /// rejected before anything is built; a scalar overflow midway leaves
    /// the nodes already built in place and reports `Overflow`.
    pub fn connect(&self, map: &mut EdgeMap, x: &Vec<usize>, nodes: &mut Vec<Node>) -> (r: Result<
        usize,
        GraphError,
    >)
        requires
            self.weights@.len() == x@.len(),
            x@.len() >= 1,
        ensures
            match r {
                Ok(res) => {
                    let n0 = old(nodes)@.len() as int;
                    let m = x@.len() as int;
                    &&& ids_ok(self.weights@, self.bias, x@, old(nodes)@.len())
                    &&& connect_fits(old(nodes)@, self.weights@, self.bias, x@)
                    &&& res == n0 + m + 1
                    &&& final(nodes)@.len() == n0 + m + 2
                    &&& forall|k: int| 0 <= k < n0 ==> final(nodes)@[k] == old(nodes)@[k]
                    &&& block_built(old(nodes)@, final(nodes)@, *self, x@, n0)
                    &&& forall|k: usize|
                        #[trigger] final(map)@.contains_key(k) <==> (old(map)@.contains_key(k) || n0
                            <= k < n0 + m + 2)
                    &&& forall|k: usize|
                        old(map)@.contains_key(k) && !(n0 <= k < n0 + m + 2)
                            ==> #[trigger] final(map)@[k] == old(map)@[k]
                    &&& forall|k: int|
                        0 <= k < m ==> #[trigger] final(map)@[(n0 + k) as usize] == (EdgeRec {
                            left: Some(x@[k]),
                            right: Some(self.weights@[k]),
                        })
                    &&& final(map)@[(n0 + m) as usize] == (EdgeRec {
                        left: Some(self.bias),
                        right: Some((n0 + m - 1) as usize),
                    })
                    &&& final(map)@[(n0 + m + 1) as usize] == (EdgeRec {
                        left: Some((n0 + m) as usize),
                        right: None,
                    })
                },
                Err(GraphError::OperandNotFound) => {
                    &&& !ids_ok(self.weights@, self.bias, x@, old(nodes)@.len())
                    &&& final(nodes)@ == old(nodes)@
                    &&& final(map)@ == old(map)@
                },
                Err(GraphError::Overflow) => {
                    let n0 = old(nodes)@.len() as int;
                    &&& ids_ok(self.weights@, self.bias, x@, old(nodes)@.len())
                    &&& !connect_fits(old(nodes)@, self.weights@, self.bias, x@)
                    &&& n0 <= final(nodes)@.len() <= n0 + x@.len() + 1
                    &&& forall|k: int| 0 <= k < n0 ==> final(nodes)@[k] == old(nodes)@[k]
                    &&& forall|k: int|
                        n0 <= k < final(nodes)@.len() ==> (#[trigger] final(nodes)@[k]).gradient
                            == 0 && final(nodes)@[k].id == k && final(nodes)@[k].operator is Some
                    &&& forall|k: usize|
                        #[trigger] final(map)@.contains_key(k) <==> (old(map)@.contains_key(k) || n0
                            <= k < final(nodes)@.len())
                    &&& forall|k: usize|
                        old(map)@.contains_key(k) && !(n0 <= k < final(nodes)@.len())
                            ==> #[trigger] final(map)@[k] == old(map)@[k]
                },
                _ => false,
            },
    {
        let n0 = nodes.len();
        let m = x.len();

        let mut k: usize = 0;
        while k < m
            invariant
                k <= m,
                m == x@.len(),
                m == self.weights@.len(),
                n0 == nodes@.len(),
                forall|j: int| 0 <= j < k ==> #[trigger] x@[j] < n0,
                forall|j: int| 0 <= j < k ==> #[trigger] self.weights@[j] < n0,
            decreases m - k,
        {
            if x[k] >= n0 || self.weights[k] >= n0 {
                return Err(GraphError::OperandNotFound);
            }
            k = k + 1;
        }
        if self.bias >= n0 {
            return Err(GraphError::OperandNotFound);
        }

        let mut last: usize = 0;
        let mut k: usize = 0;
        while k < m
            invariant
                k <= m,
                m == x@.len(),
                m == self.weights@.len(),
                n0 == old(nodes)@.len(),
                ids_ok(self.weights@, self.bias, x@, n0 as nat),
                nodes@.len() == n0 + k,
                forall|j: int| 0 <= j < n0 ==> nodes@[j] == old(nodes)@[j],
                forall|t: int|
                    n0 <= t < n0 + k ==> #[trigger] nodes@[t] == (Node {
                        id: t as usize,
                        value: product_value(old(nodes)@, x@, self.weights@, t - n0) as i64,
                        gradient: 0,
                        operator: Some(Op::Mul),
                    }),
                forall|j: int|
                    0 <= j < k ==> fits_i64(#[trigger] product_value(old(nodes)@, x@, self.weights@, j)),
                forall|key: usize|
                    #[trigger] map@.contains_key(key) <==> (old(map)@.contains_key(key) || n0 <= key
                        < n0 + k),
                forall|key: usize|
                    old(map)@.contains_key(key) && !(n0 <= key < n0 + k) ==> #[trigger] map@[key]
                        == old(map)@[key],
                forall|j: int|
                    0 <= j < k ==> #[trigger] map@[(n0 + j) as usize] == (EdgeRec {
                        left: Some(x@[j]),
                        right: Some(self.weights@[j]),
                    }),
                k >= 1 ==> last == n0 + k - 1,
            decreases m - k,
        {
            match crate::node::mul(map, nodes, x[k], self.weights[k]) {
                Ok((id, _value)) => {
                    last = id;
                },
                Err(_) => {
                    proof {
                        assert(nodes@[x@[k as int] as int] == old(nodes)@[x@[k as int] as int]);
                        assert(nodes@[self.weights@[k as int] as int] == old(nodes)@[self.weights@[
                            k as int] as int]);
                        assert(!fits_i64(product_value(old(nodes)@, x@, self.weights@, k as int)));
                        assert(!connect_fits(old(nodes)@, self.weights@, self.bias, x@));

                    }
                    return Err(GraphError::Overflow);
                },
            }
            k = k + 1;
        }

        let sum = match crate::node::add(map, nodes, self.bias, last) {
            Ok((id, _value)) => id,
            Err(_) => {
                proof {
                    assert(nodes@[self.bias as int] == old(nodes)@[self.bias as int]);
                    assert(nodes@[last as int].value == product_value(
                        old(nodes)@,
                        x@,
                        self.weights@,
                        m - 1,
                    ) as i64);
                    assert(fits_i64(product_value(old(nodes)@, x@, self.weights@, m - 1)));
                    assert(!fits_i64(pre_activation(old(nodes)@, self.weights@, self.bias, x@)));
                    assert(!connect_fits(old(nodes)@, self.weights@, self.bias, x@));

                }
                return Err(GraphError::Overflow);
            },
        };
        match crate::node::relu(map, nodes, sum) {
            Ok((res, _value)) => Ok(res),
            Err(_) => {
                proof {
                    assert(false);
                }
                Err(GraphError::Overflow)
            },
        }
    }

    /// The identifiers of the neuron's learnable leaves: its weights, then
    /// its bias.
    pub fn parameters(&self) -> (p: Vec<usize>)
        ensures
            p@ == self.weights@.push(self.bias),
    {
        let mut p: Vec<usize> = Vec::new();
        let mut k: usize = 0;
        while k < self.weights.len()
            invariant
                k <= self.weights@.len(),
                p@ == self.weights@.take(k as int),
            decreases self.weights@.len() - k,
        {
            p.push(self.weights[k]);
            proof {
                assert(p@ =~= self.weights@.take(k + 1));
            }
            k = k + 1;
        }
        proof {
            assert(self.weights@.take(self.weights@.len() as int) =~= self.weights@);
        }
        p.push(self.bias);
        p
    }
}

/// The concatenation of each neuron's parameter identifiers, in order.
pub open spec fn params_of(nrns: Seq<Neuron>) -> Seq<usize>
    decreases nrns.len(),
{
    if nrns.len() == 0 {
        Seq::empty()
    } else {
        params_of(nrns.drop_last()) + nrns.last().weights@.push(nrns.last().bias)
    }
}

/// An ordered collection of neurons sharing one input vector.
pub struct Layer {
    pub neurons: Vec<Neuron>,
}

impl Layer {
    /// `count_out` neurons of `count_in` inputs each, with fresh randomly
    /// initialized leaves.
    pub fn new(nodes: &mut Vec<Node>, count_in: u64, count_out: u64) -> (l: Layer)
        ensures
            l.neurons@.len() == count_out,
            final(nodes)@.len() == old(nodes)@.len() + count_out * (count_in + 1),
            forall|k: int| 0 <= k < old(nodes)@.len() ==> final(nodes)@[k] == old(nodes)@[k],
            forall|k: int|
                old(nodes)@.len() <= k < final(nodes)@.len() ==> {
                    let nd = #[trigger] final(nodes)@[k];
                    &&& nd.id == k
                    &&& nd.operator is None
                    &&& nd.gradient == 0
                    &&& -1 <= nd.value <= 1
                },
            forall|j: int|
                0 <= j < count_out ==> {
                    let nrn = #[trigger] l.neurons@[j];
                    let base = old(nodes)@.len() + j * (count_in + 1);
                    &&& nrn.weights@.len() == count_in
                    &&& forall|k: int|
                        0 <= k < count_in ==> #[trigger] nrn.weights@[k] == base + k
                            && nrn.weights@[k] < final(nodes)@.len()
                    &&& nrn.bias == base + count_in
                    &&& nrn.bias < final(nodes)@.len()
                },
    {
        let mut neurons: Vec<Neuron> = Vec::new();
        let mut j: u64 = 0;
        while j < count_out
            invariant
                j <= count_out,
                neurons@.len() == j,
                nodes@.len() == old(nodes)@.len() + j * (count_in + 1),
                forall|k: int| 0 <= k < old(nodes)@.len() ==> nodes@[k] == old(nodes)@[k],
                forall|k: int|
                    old(nodes)@.len() <= k < nodes@.len() ==> {
                        let nd = #[trigger] nodes@[k];
                        &&& nd.id == k
                        &&& nd.operator is None
                        &&& nd.gradient == 0
                        &&& -1 <= nd.value <= 1
                    },
                forall|i: int|
                    0 <= i < j ==> {
                        let nrn = #[trigger] neurons@[i];
                        let base = old(nodes)@.len() + i * (count_in + 1);
                        &&& nrn.weights@.len() == count_in
                        &&& forall|k: int|
                            0 <= k < count_in ==> #[trigger] nrn.weights@[k] == base + k
                                && nrn.weights@[k] < nodes@.len()
                        &&& nrn.bias == base + count_in
                        &&& nrn.bias < nodes@.len()
                    },
            decreases count_out - j,
        {
            let nrn = Neuron::new(nodes, count_in);
            neurons.push(nrn);
            proof {
                assert((j + 1) * (count_in + 1) == j * (count_in + 1) + (count_in
                    + 1)) by (nonlinear_arith);
            }
            j = j + 1;
        }
        Layer { neurons }
    }

    /// A layer over the given neurons, for reproducible initialization.
    pub fn from_neurons(neurons: Vec<Neuron>) -> (l: Layer)
        ensures
            l.neurons == neurons,
    {
        Layer { neurons }
    }

    /// Wires every neuron to the shared input vector, in order, and returns
    /// their output identifiers. An overflow in some neuron's wiring leaves
    /// the nodes already built in place and reports `Overflow`.
    pub fn connect(&self, map: &mut EdgeMap, nodes: &mut Vec<Node>, x: Vec<usize>) -> (r: Result<
        Vec<usize>,
        GraphError,
    >)
        requires
            x@.len() >= 1,
            forall|j: int|
                0 <= j < self.neurons@.len() ==> (#[trigger] self.neurons@[j]).weights@.len()
                    == x@.len(),
            forall|j: int|
                0 <= j < self.neurons@.len() ==> ids_ok(
                    (#[trigger] self.neurons@[j]).weights@,
                    self.neurons@[j].bias,
                    x@,
                    old(nodes)@.len(),
                ),
        ensures
            match r {
                Ok(outs) => {
                    let n0 = old(nodes)@.len() as int;
                    &&& outs@.len() == self.neurons@.len()
                    &&& forall|j: int|
                        0 <= j < self.neurons@.len() ==> connect_fits(
                            old(nodes)@,
                            (#[trigger] self.neurons@[j]).weights@,
                            self.neurons@[j].bias,
                            x@,
                        )
                    &&& forall|k: int| 0 <= k < n0 ==> final(nodes)@[k] == old(nodes)@[k]
                    &&& final(nodes)@.len() == n0 + self.neurons@.len() * (x@.len() + 2)
                    &&& forall|j: int|
                        0 <= j < self.neurons@.len() ==> #[trigger] outs@[j] == n0 + j * (x@.len()
                            + 2) + x@.len() + 1
                    &&& forall|j: int|
                        0 <= j < self.neurons@.len() ==> block_built(
                            old(nodes)@,
                            final(nodes)@,
                            #[trigger] self.neurons@[j],
                            x@,
                            n0 + j * (x@.len() + 2),
                        )
                    &&& forall|j: int|
                        0 <= j < outs@.len() ==> {
                            let out = #[trigger] outs@[j];
                            &&& n0 <= out < final(nodes)@.len()
                            &&& final(nodes)@[out as int].operator == Some(Op::Relu)
                            &&& final(nodes)@[out as int].gradient == 0
                            &&& final(nodes)@[out as int].value == neuron_out_value(
                                old(nodes)@,
                                self.neurons@[j].weights@,
                                self.neurons@[j].bias,
                                x@,
                            )
                        }
                    &&& forall|k: usize|
                        #[trigger] final(map)@.contains_key(k) ==> (old(map)@.contains_key(k) || n0
                            <= k)
                    &&& forall|k: usize|
                        #[trigger] old(map)@.contains_key(k) && k < n0
                            ==> final(map)@.contains_key(k) && final(map)@[k] == old(map)@[k]
                },
                Err(e) => {
                    let n0 = old(nodes)@.len() as int;
                    &&& e == GraphError::Overflow
                    &&& exists|j: int|
                        0 <= j < self.neurons@.len() && !connect_fits(
                            old(nodes)@,
                            (#[trigger] self.neurons@[j]).weights@,
                            self.neurons@[j].bias,
                            x@,
                        )
                    &&& forall|k: int| 0 <= k < n0 ==> final(nodes)@[k] == old(nodes)@[k]
                    &&& forall|k: usize|
                        #[trigger] final(map)@.contains_key(k) ==> (old(map)@.contains_key(k) || n0
                            <= k)
                    &&& forall|k: usize|
                        #[trigger] old(map)@.contains_key(k) && k < n0
                            ==> final(map)@.contains_key(k) && final(map)@[k] == old(map)@[k]
                },
            },
    {
        let n0 = nodes.len();
        let mut outs: Vec<usize> = Vec::new();
        let mut j: usize = 0;
        while j < self.neurons.len()
            invariant
                j <= self.neurons@.len(),
                x@.len() >= 1,
                n0 == old(nodes)@.len(),
                n0 <= nodes@.len(),
                forall|i: int|
                    0 <= i < self.neurons@.len() ==> (#[trigger] self.neurons@[i]).weights@.len()
                        == x@.len(),
                forall|i: int|
                    0 <= i < self.neurons@.len() ==> ids_ok(
                        (#[trigger] self.neurons@[i]).weights@,
                        self.neurons@[i].bias,
                        x@,
                        n0 as nat,
                    ),
                forall|k: int| 0 <= k < n0 ==> nodes@[k] == old(nodes)@[k],
                nodes@.len() == n0 + j * (x@.len() + 2),
                outs@.len() == j,
                forall|i: int|
                    0 <= i < j ==> #[trigger] outs@[i] == n0 + i * (x@.len() + 2) + x@.len() + 1,
                forall|i: int|
                    0 <= i < j ==> block_built(
                        old(nodes)@,
                        nodes@,
                        #[trigger] self.neurons@[i],
                        x@,
                        n0 + i * (x@.len() + 2),
                    ),
                forall|i: int|
                    0 <= i < j ==> connect_fits(
                        old(nodes)@,
                        (#[trigger] self.neurons@[i]).weights@,
                        self.neurons@[i].bias,
                        x@,
                    ),
                forall|i: int|
                    0 <= i < j ==> {
                        let out = #[trigger] outs@[i];
                        &&& n0 <= out < nodes@.len()
                        &&& nodes@[out as int].operator == Some(Op::Relu)
                        &&& nodes@[out as int].gradient == 0
                        &&& nodes@[out as int].value == neuron_out_value(
                            old(nodes)@,
                            self.neurons@[i].weights@,
                            self.neurons@[i].bias,
                            x@,
                        )
                    },
                forall|k: usize|
                    #[trigger] map@.contains_key(k) ==> (old(map)@.contains_key(k) || n0 <= k),
                forall|k: usize|
                    #[trigger] old(map)@.contains_key(k) && k < n0 ==> map@.contains_key(k)
                        && map@[k] == old(map)@[k],
            decreases self.neurons@.len() - j,
        {
            let ghost nodes_before = nodes@;
            let ghost map_before = map@;
            match self.neurons[j].connect(map, &x, nodes) {
                Ok(out) => {
                    proof {
                        lemma_connect_prefix(
                            old(nodes)@,
                            nodes_before,
                            self.neurons@[j as int].weights@,
                            self.neurons@[j as int].bias,
                            x@,
                        );
                        assert((j + 1) * (x@.len() + 2) == j * (x@.len() + 2) + (x@.len()
                            + 2)) by (nonlinear_arith);
                        lemma_block_transfer(
                            old(nodes)@,
                            nodes_before,
                            nodes@,
                            self.neurons@[j as int],
                            x@,
                            nodes_before.len() as int,
                        );
                        assert forall|i: int|
                            0 <= i < j implies block_built(
                            old(nodes)@,
                            nodes@,
                            #[trigger] self.neurons@[i],
                            x@,
                            n0 + i * (x@.len() + 2),
                        ) by {
                            assert((i + 1) * (x@.len() + 2) == i * (x@.len() + 2) + (x@.len()
                                + 2)) by (nonlinear_arith);
                            assert((i + 1) * (x@.len() + 2) <= j * (x@.len()
                                + 2)) by (nonlinear_arith)
                                requires
                                    0 <= i < j,
                            ;
                            lemma_block_preserved(
                                old(nodes)@,
                                nodes_before,
                                nodes@,
                                self.neurons@[i],
                                x@,
                                n0 + i * (x@.len() + 2),
                            );
                        }
                        assert forall|k: usize|
                            old(map)@.contains_key(k) && k < n0 implies map@.contains_key(k)
                            && map@[k] == old(map)@[k] by {
                            assert(map_before.contains_key(k) && map_before[k] == old(map)@[k]);
                            assert(map@[k] == map_before[k]);
                        }
                        assert forall|k: usize| #[trigger]
                            map@.contains_key(k) implies (old(map)@.contains_key(k) || n0
                            <= k) by {
                            if map_before.contains_key(k) {
                                assert(old(map)@.contains_key(k) || n0 <= k);
                            }
                        }
                    }
                    outs.push(out);
                },
                Err(_) => {
                    proof {
                        lemma_connect_prefix(
                            old(nodes)@,
                            nodes_before,
                            self.neurons@[j as int].weights@,
                            self.neurons@[j as int].bias,
                            x@,
                        );
                        assert forall|k: usize|
                            old(map)@.contains_key(k) && k < n0 implies map@.contains_key(k)
                            && map@[k] == old(map)@[k] by {
                            assert(map_before.contains_key(k) && map_before[k] == old(map)@[k]);
                            assert(map@[k] == map_before[k]);
                        }
                        assert forall|k: usize| #[trigger]
                            map@.contains_key(k) implies (old(map)@.contains_key(k) || n0
                            <= k) by {
                            if map_before.contains_key(k) {
                                assert(old(map)@.contains_key(k) || n0 <= k);
                            }
                        }
                    }
                    return Err(GraphError::Overflow);
                },
            }
            j = j + 1;
        }
        Ok(outs)
    }

    /// The identifiers of every neuron's learnable leaves, neuron by neuron.
    pub fn parameters(&self) -> (p: Vec<usize>)
        ensures
            p@ == params_of(self.neurons@),
    {
        let mut p: Vec<usize> = Vec::new();
        let mut j: usize = 0;
        while j < self.neurons.len()
            invariant
                j <= self.neurons@.len(),
                p@ == params_of(self.neurons@.take(j as int)),
            decreases self.neurons@.len() - j,
        {
            let mut q = self.neurons[j].parameters();
            let ghost p_before = p@;
            p.append(&mut q);
            proof {
                assert(self.neurons@.take(j + 1).drop_last() =~= self.neurons@.take(j as int));
                assert(self.neurons@.take(j + 1).last() == self.neurons@[j as int]);
                assert(p@ =~= params_of(self.neurons@.take(j + 1)));
            }
            j = j + 1;
        }
        proof {
            assert(self.neurons@.take(self.neurons@.len() as int) =~= self.neurons@);
        }
        p
    }
}

} // verus!
