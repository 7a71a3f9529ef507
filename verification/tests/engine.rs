use std::collections::HashMap;

use autograd::node::{
    add, mul, new_node, pow, read_gradient, read_value, relu, set_gradient, EdgeMap, EdgeRec,
    GraphError,
};

fn fresh() -> (EdgeMap, Vec<autograd::node::Node>) {
    (HashMap::new(), Vec::new())
}

#[test]
fn add_forward_and_backward() {
    let (mut map, mut nodes) = fresh();
    let a = new_node(&mut nodes, 2);
    let b = new_node(&mut nodes, 3);
    let (c, value) = add(&mut map, &mut nodes, a, b).unwrap();
    assert_eq!(value, 5);
    assert_eq!(read_value(&nodes, c), 5);
    set_gradient(&mut nodes, c, 1);
    autograd::backward::backwards(&mut map, &mut nodes).unwrap();
    assert_eq!(read_gradient(&nodes, a), 1);
    assert_eq!(read_gradient(&nodes, b), 1);
}

#[test]
fn mul_forward_and_backward() {
    let (mut map, mut nodes) = fresh();
    let a = new_node(&mut nodes, 4);
    let b = new_node(&mut nodes, 5);
    let (c, value) = mul(&mut map, &mut nodes, a, b).unwrap();
    assert_eq!(value, 20);
    set_gradient(&mut nodes, c, 1);
    autograd::backward::backwards(&mut map, &mut nodes).unwrap();
    assert_eq!(read_gradient(&nodes, a), 5);
    assert_eq!(read_gradient(&nodes, b), 4);
}

#[test]
fn relu_forward_and_backward_positive() {
    let (mut map, mut nodes) = fresh();
    let x = new_node(&mut nodes, 7);
    let (y, value) = relu(&mut map, &mut nodes, x).unwrap();
    assert_eq!(value, 7);
    set_gradient(&mut nodes, y, 1);
    autograd::backward::backwards(&mut map, &mut nodes).unwrap();
    assert_eq!(read_gradient(&nodes, x), 1);
}

#[test]
fn relu_forward_and_backward_negative() {
    let (mut map, mut nodes) = fresh();
    let x = new_node(&mut nodes, -7);
    let (y, value) = relu(&mut map, &mut nodes, x).unwrap();
    assert_eq!(value, 0);
    set_gradient(&mut nodes, y, 1);
    autograd::backward::backwards(&mut map, &mut nodes).unwrap();
    assert_eq!(read_gradient(&nodes, x), 0);
}

#[test]
fn pow_forward_and_backward() {
    let (mut map, mut nodes) = fresh();
    let a = new_node(&mut nodes, 2);
    let b = new_node(&mut nodes, 10);
    let (c, value) = pow(&mut map, &mut nodes, a, b).unwrap();
    assert_eq!(value, 1024);
    set_gradient(&mut nodes, c, 1);
    autograd::backward::backwards(&mut map, &mut nodes).unwrap();
    // d(a^b)/da = b * a^(b - 1) = 10 * 512.
    assert_eq!(read_gradient(&nodes, a), 5120);
    // The exponent operand receives no contribution.
    assert_eq!(read_gradient(&nodes, b), 0);
}

#[test]
fn backward_twice_accumulates() {
    let (mut map, mut nodes) = fresh();
    let a = new_node(&mut nodes, 2);
    let b = new_node(&mut nodes, 3);
    let (c, _) = add(&mut map, &mut nodes, a, b).unwrap();
    set_gradient(&mut nodes, c, 1);
    autograd::backward::backwards(&mut map, &mut nodes).unwrap();
    autograd::backward::backwards(&mut map, &mut nodes).unwrap();
    assert_eq!(read_gradient(&nodes, a), 2);
    assert_eq!(read_gradient(&nodes, b), 2);
    assert_eq!(read_gradient(&nodes, c), 1);
}

#[test]
fn diamond_accumulates_both_paths() {
    let (mut map, mut nodes) = fresh();
    let a = new_node(&mut nodes, 2);
    let b = new_node(&mut nodes, 3);
    let (c, cv) = add(&mut map, &mut nodes, a, b).unwrap();
    let (d, dv) = mul(&mut map, &mut nodes, a, b).unwrap();
    let (e, ev) = add(&mut map, &mut nodes, c, d).unwrap();
    assert_eq!(cv, 5);
    assert_eq!(dv, 6);
    assert_eq!(ev, 11);
    set_gradient(&mut nodes, e, 1);
    autograd::backward::backwards(&mut map, &mut nodes).unwrap();
    // a.gradient == 1 + b.value, b.gradient == 1 + a.value.
    assert_eq!(read_gradient(&nodes, a), 4);
    assert_eq!(read_gradient(&nodes, b), 3);
    assert_eq!(read_gradient(&nodes, c), 1);
    assert_eq!(read_gradient(&nodes, d), 1);
}

#[test]
fn relu_of_product_scenario() {
    let (mut map, mut nodes) = fresh();
    let x = new_node(&mut nodes, 3);
    let w = new_node(&mut nodes, 2);
    let (p, pv) = mul(&mut map, &mut nodes, x, w).unwrap();
    let (y, yv) = relu(&mut map, &mut nodes, p).unwrap();
    assert_eq!(pv, 6);
    assert_eq!(yv, 6);
    set_gradient(&mut nodes, y, 1);
    autograd::backward::backwards(&mut map, &mut nodes).unwrap();
    assert_eq!(read_gradient(&nodes, x), 2);
    assert_eq!(read_gradient(&nodes, w), 3);
}

#[test]
fn operand_not_found_is_rejected() {
    let (mut map, mut nodes) = fresh();
    let a = new_node(&mut nodes, 1);
    assert_eq!(add(&mut map, &mut nodes, a, 7), Err(GraphError::OperandNotFound));
    assert_eq!(mul(&mut map, &mut nodes, 7, a), Err(GraphError::OperandNotFound));
    assert_eq!(pow(&mut map, &mut nodes, a, 7), Err(GraphError::OperandNotFound));
    assert_eq!(relu(&mut map, &mut nodes, 7), Err(GraphError::OperandNotFound));
    assert_eq!(nodes.len(), 1);
    assert!(map.is_empty());
}

#[test]
fn construction_overflow_is_rejected() {
    let (mut map, mut nodes) = fresh();
    let a = new_node(&mut nodes, i64::MAX);
    let b = new_node(&mut nodes, 2);
    assert_eq!(add(&mut map, &mut nodes, a, b), Err(GraphError::Overflow));
    assert_eq!(mul(&mut map, &mut nodes, a, b), Err(GraphError::Overflow));
    assert_eq!(pow(&mut map, &mut nodes, a, b), Err(GraphError::Overflow));
    assert_eq!(nodes.len(), 2);
}

#[test]
fn negative_exponent_is_rejected() {
    let (mut map, mut nodes) = fresh();
    let a = new_node(&mut nodes, 2);
    let b = new_node(&mut nodes, -1);
    assert_eq!(pow(&mut map, &mut nodes, a, b), Err(GraphError::NegativeExponent));
}

#[test]
fn backward_overflow_leaves_graph_untouched() {
    let (mut map, mut nodes) = fresh();
    let a = new_node(&mut nodes, i64::MAX);
    let b = new_node(&mut nodes, 1);
    let (c, cv) = mul(&mut map, &mut nodes, a, b).unwrap();
    assert_eq!(cv, i64::MAX);
    set_gradient(&mut nodes, c, 2);
    // b would receive a.value * 2, which leaves the i64 range.
    assert_eq!(autograd::backward::backwards(&mut map, &mut nodes), Err(GraphError::Overflow));
    assert_eq!(read_gradient(&nodes, a), 0);
    assert_eq!(read_gradient(&nodes, b), 0);
    assert_eq!(read_gradient(&nodes, c), 2);
}

#[test]
fn malformed_edge_record_is_rejected() {
    let (mut map, mut nodes) = fresh();
    let a = new_node(&mut nodes, 1);
    let b = new_node(&mut nodes, 2);
    let (c, _) = add(&mut map, &mut nodes, a, b).unwrap();
    // A record on a leaf mismatches its (absent) operator tag.
    map.insert(a, EdgeRec { left: Some(b), right: None });
    set_gradient(&mut nodes, c, 1);
    assert_eq!(
        autograd::backward::backwards(&mut map, &mut nodes),
        Err(GraphError::MalformedEdgeRecord)
    );
    assert_eq!(read_gradient(&nodes, a), 0);
}

#[test]
fn missing_node_is_rejected() {
    let (mut map, mut nodes) = fresh();
    let a = new_node(&mut nodes, 1);
    let b = new_node(&mut nodes, 2);
    let (c, _) = add(&mut map, &mut nodes, a, b).unwrap();
    // Rewire the sum to an identifier absent from the arena.
    map.insert(c, EdgeRec { left: Some(a), right: Some(99) });
    set_gradient(&mut nodes, c, 1);
    assert_eq!(autograd::backward::backwards(&mut map, &mut nodes), Err(GraphError::MissingNode));
    assert_eq!(read_gradient(&nodes, a), 0);
}

#[test]
fn relu_at_zero_passes_nothing() {
    let (mut map, mut nodes) = fresh();
    let x = new_node(&mut nodes, 0);
    let (y, value) = relu(&mut map, &mut nodes, x).unwrap();
    assert_eq!(value, 0);
    set_gradient(&mut nodes, y, 1);
    autograd::backward::backwards(&mut map, &mut nodes).unwrap();
    assert_eq!(read_gradient(&nodes, x), 0);
}

#[test]
fn empty_graph_backward_is_a_no_op() {
    let (mut map, mut nodes) = fresh();
    assert_eq!(autograd::backward::backwards(&mut map, &mut nodes), Ok(()));
    assert!(nodes.is_empty());
}

#[test]
fn pow_with_zero_exponent_has_zero_base_gradient() {
    let (mut map, mut nodes) = fresh();
    let a = new_node(&mut nodes, 9);
    let b = new_node(&mut nodes, 0);
    let (c, value) = pow(&mut map, &mut nodes, a, b).unwrap();
    assert_eq!(value, 1);
    set_gradient(&mut nodes, c, 1);
    autograd::backward::backwards(&mut map, &mut nodes).unwrap();
    assert_eq!(read_gradient(&nodes, a), 0);
}

#[test]
fn unseeded_graph_keeps_zero_gradients() {
    let (mut map, mut nodes) = fresh();
    let a = new_node(&mut nodes, 2);
    let b = new_node(&mut nodes, 3);
    let (c, _) = add(&mut map, &mut nodes, a, b).unwrap();
    autograd::backward::backwards(&mut map, &mut nodes).unwrap();
    assert_eq!(read_gradient(&nodes, a), 0);
    assert_eq!(read_gradient(&nodes, b), 0);
    assert_eq!(read_gradient(&nodes, c), 0);
}
