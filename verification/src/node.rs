//! The node arena and the operator primitives.
//!
//! A graph is a `Vec<Node>` (the arena) together with an `EdgeMap` recording,
//! for each non-leaf node, the identifiers of its one or two operands. Node
//! identifiers are the arena indices themselves: they are assigned in
//! creation order and never reused, so every operand identifier is strictly
//! smaller than the node that references it and the graph is acyclic by
//! construction.

use std::collections::HashMap;
use vstd::prelude::*;

use crate::math::{fits_i64, pow_all_fits, pow_int};

verus! {

broadcast use vstd::std_specs::hash::group_hash_axioms;

/// Operator tag of a non-leaf node; a leaf carries no tag.
#[derive(Debug, Clone, Copy, PartialEq, Eq, Structural)]
pub enum Op {
    Plus,
    Mul,
    Pow,
    Relu,
}

/// A scalar vertex of the computation graph.
#[derive(Debug, Clone, Copy)]
pub struct Node {
    /// Arena index of this node; equal to its position in the node vector.
    pub id: usize,
    /// Scalar result of the node's operator, fixed at creation.
    pub value: i64,
    /// Accumulated partial derivative of the seeded output with respect to
    /// this node; starts at zero and only ever receives additive
    /// contributions during the backward pass.
    pub gradient: i64,
    /// `None` marks a leaf (an input or a parameter).
    pub operator: Option<Op>,
}

/// Ordered pair of operand identifiers of a non-leaf node. A `Relu` node has
/// only a left operand; `Plus`, `Mul` and `Pow` have both.
#[derive(Debug, Clone, Copy)]
pub struct EdgeRec {
    pub left: Option<usize>,
    pub right: Option<usize>,
}

/// Satellite index from a node identifier to its operand pair; a node with
/// no entry is a leaf.
pub type EdgeMap = HashMap<usize, EdgeRec>;

/// Failure conditions of graph construction and of the backward pass.
#[derive(Debug, Clone, Copy, PartialEq, Eq, Structural)]
pub enum GraphError {
    /// An operator primitive was given an identifier absent from the arena.
    OperandNotFound,
    /// An edge record's arity does not match its node's operator tag.
    MalformedEdgeRecord,
    /// An edge record references an identifier absent from the arena.
    MissingNode,
    /// A scalar result or a gradient contribution left the `i64` range.
    Overflow,
    /// A power node was given an exponent below zero, which integer
    /// arithmetic cannot raise to.
    NegativeExponent,
}

/// Forward value of the rectified-linear operator.
pub open spec fn relu_value(v: int) -> int {
    if v > 0 {
        v
    } else {
        0
    }
}

impl Node {
    /// A fresh node with the given identifier, value and tag; its gradient
    /// accumulator starts at zero.
    pub fn new(id: usize, value: i64, operator: Option<Op>) -> (n: Node)
        ensures
            n == (Node { id, value, gradient: 0, operator }),
    {
        Node { id, value, gradient: 0, operator }
    }
}

/// Appends a node tagged `operator` and returns its identifier, the index at
/// which it now stands.
fn append_node(nodes: &mut Vec<Node>, value: i64, operator: Option<Op>) -> (id: usize)
    ensures
        id == old(nodes)@.len(),
        final(nodes)@ == old(nodes)@.push(Node { id, value, gradient: 0, operator }),
{
    let node_id = nodes.len();
    nodes.push(Node::new(node_id, value, operator));
    node_id
}

/// Introduces a new leaf (an input or a parameter) with the given value and
/// returns its identifier.
pub fn new_node(nodes: &mut Vec<Node>, value: i64) -> (id: usize)
    ensures
        id == old(nodes)@.len(),
        final(nodes)@ == old(nodes)@.push(Node { id, value, gradient: 0, operator: None }),
{
    append_node(nodes, value, None)
}

/// Extends the graph with the sum of two existing nodes.
///
/// On success the new node holds the sum of the operands' values, its edge
/// record names the two operands, and its identifier and value are returned.
pub fn add(map: &mut EdgeMap, nodes: &mut Vec<Node>, index_self: usize, index_other: usize) -> (r:
    Result<(usize, i64), GraphError>)
    ensures
        match r {
            Ok((id, value)) => {
                &&& index_self < old(nodes)@.len()
                &&& index_other < old(nodes)@.len()
                &&& id == old(nodes)@.len()
                &&& value == old(nodes)@[index_self as int].value
                    + old(nodes)@[index_other as int].value
                &&& final(nodes)@ == old(nodes)@.push(
                    Node { id, value, gradient: 0, operator: Some(Op::Plus) },
                )
                &&& final(map)@ == old(map)@.insert(
                    id,
                    EdgeRec { left: Some(index_self), right: Some(index_other) },
                )
            },
            Err(GraphError::OperandNotFound) => {
                &&& index_self >= old(nodes)@.len() || index_other >= old(nodes)@.len()
                &&& final(nodes)@ == old(nodes)@
                &&& final(map)@ == old(map)@
            },
            Err(GraphError::Overflow) => {
                &&& index_self < old(nodes)@.len()
                &&& index_other < old(nodes)@.len()
                &&& !fits_i64(
                    old(nodes)@[index_self as int].value + old(nodes)@[index_other as int].value,
                )
                &&& final(nodes)@ == old(nodes)@
                &&& final(map)@ == old(map)@
            },
            _ => false,
        },
{
    if index_self >= nodes.len() || index_other >= nodes.len() {
        return Err(GraphError::OperandNotFound);
    }
    let a = nodes[index_self].value;
    let b = nodes[index_other].value;
    match a.checked_add(b) {
        Some(value) => {
            let node_id = append_node(nodes, value, Some(Op::Plus));
            map.insert(node_id, EdgeRec { left: Some(index_self), right: Some(index_other) });
            Ok((node_id, value))
        },
        None => Err(GraphError::Overflow),
    }
}

/// Extends the graph with the product of two existing nodes.
pub fn mul(map: &mut EdgeMap, nodes: &mut Vec<Node>, index_self: usize, index_other: usize) -> (r:
    Result<(usize, i64), GraphError>)
    ensures
        match r {
            Ok((id, value)) => {
                &&& index_self < old(nodes)@.len()
                &&& index_other < old(nodes)@.len()
                &&& id == old(nodes)@.len()
                &&& value == old(nodes)@[index_self as int].value
                    * old(nodes)@[index_other as int].value
                &&& final(nodes)@ == old(nodes)@.push(
                    Node { id, value, gradient: 0, operator: Some(Op::Mul) },
                )
                &&& final(map)@ == old(map)@.insert(
                    id,
                    EdgeRec { left: Some(index_self), right: Some(index_other) },
                )
            },
            Err(GraphError::OperandNotFound) => {
                &&& index_self >= old(nodes)@.len() || index_other >= old(nodes)@.len()
                &&& final(nodes)@ == old(nodes)@
                &&& final(map)@ == old(map)@
            },
            Err(GraphError::Overflow) => {
                &&& index_self < old(nodes)@.len()
                &&& index_other < old(nodes)@.len()
                &&& !fits_i64(
                    old(nodes)@[index_self as int].value * old(nodes)@[index_other as int].value,
                )
                &&& final(nodes)@ == old(nodes)@
                &&& final(map)@ == old(map)@
            },
            _ => false,
        },
{
    if index_self >= nodes.len() || index_other >= nodes.len() {
        return Err(GraphError::OperandNotFound);
    }
    let a = nodes[index_self].value;
    let b = nodes[index_other].value;
    match a.checked_mul(b) {
        Some(value) => {
            let node_id = append_node(nodes, value, Some(Op::Mul));
            map.insert(node_id, EdgeRec { left: Some(index_self), right: Some(index_other) });
            Ok((node_id, value))
        },
        None => Err(GraphError::Overflow),
    }
}

/// Extends the graph with the left node's value raised to the right node's
/// value. Integer arithmetic has no power with a negative exponent, so such
/// an exponent is rejected rather than computed.
pub fn pow(map: &mut EdgeMap, nodes: &mut Vec<Node>, index_self: usize, index_other: usize) -> (r:
    Result<(usize, i64), GraphError>)
    ensures
        match r {
            Ok((id, value)) => {
                &&& index_self < old(nodes)@.len()
                &&& index_other < old(nodes)@.len()
                &&& old(nodes)@[index_other as int].value >= 0
                &&& id == old(nodes)@.len()
                &&& value == pow_int(
                    old(nodes)@[index_self as int].value as int,
                    old(nodes)@[index_other as int].value as nat,
                )
                &&& final(nodes)@ == old(nodes)@.push(
                    Node { id, value, gradient: 0, operator: Some(Op::Pow) },
                )
                &&& final(map)@ == old(map)@.insert(
                    id,
                    EdgeRec { left: Some(index_self), right: Some(index_other) },
                )
            },
            Err(GraphError::OperandNotFound) => {
                &&& index_self >= old(nodes)@.len() || index_other >= old(nodes)@.len()
                &&& final(nodes)@ == old(nodes)@
                &&& final(map)@ == old(map)@
            },
            Err(GraphError::NegativeExponent) => {
                &&& index_self < old(nodes)@.len()
                &&& index_other < old(nodes)@.len()
                &&& old(nodes)@[index_other as int].value < 0
                &&& final(nodes)@ == old(nodes)@
                &&& final(map)@ == old(map)@
            },
            Err(GraphError::Overflow) => {
                &&& index_self < old(nodes)@.len()
                &&& index_other < old(nodes)@.len()
                &&& old(nodes)@[index_other as int].value >= 0
                &&& !pow_all_fits(
                    old(nodes)@[index_self as int].value as int,
                    old(nodes)@[index_other as int].value as int,
                )
                &&& final(nodes)@ == old(nodes)@
                &&& final(map)@ == old(map)@
            },
            _ => false,
        },
{
    if index_self >= nodes.len() || index_other >= nodes.len() {
        return Err(GraphError::OperandNotFound);
    }
    let a = nodes[index_self].value;
    let b = nodes[index_other].value;
    if b < 0 {
        return Err(GraphError::NegativeExponent);
    }
    match crate::math::ipow_checked(a, b) {
        Some(value) => {
            let node_id = append_node(nodes, value, Some(Op::Pow));
            map.insert(node_id, EdgeRec { left: Some(index_self), right: Some(index_other) });
            Ok((node_id, value))
        },
        None => Err(GraphError::Overflow),
    }
}

/// Extends the graph with the rectified-linear image of an existing node:
/// its value where positive, zero otherwise.
pub fn relu(map: &mut EdgeMap, nodes: &mut Vec<Node>, index_self: usize) -> (r: Result<
    (usize, i64),
    GraphError,
>)
    ensures
        match r {
            Ok((id, value)) => {
                &&& index_self < old(nodes)@.len()
                &&& id == old(nodes)@.len()
                &&& value == relu_value(old(nodes)@[index_self as int].value as int)
                &&& final(nodes)@ == old(nodes)@.push(
                    Node { id, value, gradient: 0, operator: Some(Op::Relu) },
                )
                &&& final(map)@ == old(map)@.insert(
                    id,
                    EdgeRec { left: Some(index_self), right: None },
                )
            },
            Err(GraphError::OperandNotFound) => {
                &&& index_self >= old(nodes)@.len()
                &&& final(nodes)@ == old(nodes)@
                &&& final(map)@ == old(map)@
            },
            _ => false,
        },
{
    if index_self >= nodes.len() {
        return Err(GraphError::OperandNotFound);
    }
    let a = nodes[index_self].value;
    let value = if a > 0 {
        a
    } else {
        0
    };
    let node_id = append_node(nodes, value, Some(Op::Relu));
    map.insert(node_id, EdgeRec { left: Some(index_self), right: None });
    Ok((node_id, value))
}

/// Seeds (or otherwise overwrites) the gradient accumulator of one node;
/// conventionally the chosen output node is seeded with `1` before the
/// backward pass.
pub fn set_gradient(nodes: &mut Vec<Node>, index: usize, gradient: i64)
    requires
        index < old(nodes)@.len(),
    ensures
        final(nodes)@ == old(nodes)@.update(
            index as int,
            Node { gradient, ..old(nodes)@[index as int] },
        ),
{
    nodes[index].gradient = gradient;
}

/// The scalar value of a node.
pub fn read_value(nodes: &Vec<Node>, index: usize) -> (v: i64)
    requires
        index < nodes@.len(),
    ensures
        v == nodes@[index as int].value,
{
    nodes[index].value
}

/// The accumulated gradient of a node.
pub fn read_gradient(nodes: &Vec<Node>, index: usize) -> (g: i64)
    requires
        index < nodes@.len(),
    ensures
        g == nodes@[index as int].gradient,
{
    nodes[index].gradient
}

} // verus!
