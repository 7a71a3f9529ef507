use std::collections::HashMap;

use autograd::backward::backwards;
use autograd::layer::{Layer, Neuron};
use autograd::node::{new_node, read_gradient, read_value, set_gradient, EdgeMap, Node};

fn fresh() -> (EdgeMap, Vec<Node>) {
    (HashMap::new(), Vec::new())
}

#[test]
fn basics() {
    let mut map: EdgeMap = HashMap::new();
    let mut nodes: Vec<Node> = Vec::new();

    let count_in = 2;
    let mut inputs = Vec::new();
    for _ in 0..count_in {
        inputs.push(new_node(&mut nodes, 1));
    }

    let layer1 = Layer::new(&mut nodes, 2, 1);
    let final_layer = layer1.connect(&mut map, &mut nodes, inputs).unwrap();

    set_gradient(&mut nodes, final_layer[0], 1);
    backwards(&mut map, &mut nodes).unwrap();
}

#[test]
fn random_leaves_stay_in_range() {
    let (_map, mut nodes) = fresh();
    let before = nodes.len();
    let nrn = Neuron::new(&mut nodes, 8);
    assert_eq!(nodes.len(), before + 9);
    for id in nrn.parameters() {
        let v = read_value(&nodes, id);
        assert!(-1 <= v && v <= 1);
    }
}

#[test]
fn neuron_parameters_are_weights_then_bias() {
    let (_map, mut nodes) = fresh();
    let nrn = Neuron::with_weights(&mut nodes, &vec![4, 5, 6], 7);
    assert_eq!(nrn.parameters(), vec![0, 1, 2, 3]);
    assert_eq!(read_value(&nodes, 3), 7);
}

#[test]
fn layer_new_appends_one_id_block_per_neuron() {
    let (_map, mut nodes) = fresh();
    let layer = Layer::new(&mut nodes, 2, 2);
    // Two neurons of two weights and a bias each: six fresh leaves, each
    // neuron owning its own consecutive identifier block.
    assert_eq!(nodes.len(), 6);
    assert_eq!(layer.neurons[0].weights, vec![0, 1]);
    assert_eq!(layer.neurons[0].bias, 2);
    assert_eq!(layer.neurons[1].weights, vec![3, 4]);
    assert_eq!(layer.neurons[1].bias, 5);
    assert_eq!(layer.parameters(), vec![0, 1, 2, 3, 4, 5]);
}

#[test]
fn layer_parameters_concatenate_neurons() {
    let (_map, mut nodes) = fresh();
    let n1 = Neuron::with_weights(&mut nodes, &vec![1, 2], 3);
    let n2 = Neuron::with_weights(&mut nodes, &vec![4, 5], 6);
    let layer = Layer::from_neurons(vec![n1, n2]);
    assert_eq!(layer.parameters(), vec![0, 1, 2, 3, 4, 5]);
}

#[test]
fn neuron_connect_matches_hand_built_graph() {
    // Inputs x = 3 and weight 2 with a zero bias: the neuron computes
    // relu(0 + 3 * 2) and its backward pass matches the product rule.
    let (mut map, mut nodes) = fresh();
    let x = new_node(&mut nodes, 3);
    let nrn = Neuron::with_weights(&mut nodes, &vec![2], 0);
    let w = nrn.weights[0];
    let out = nrn.connect(&mut map, &vec![x], &mut nodes).unwrap();
    assert_eq!(read_value(&nodes, out), 6);
    set_gradient(&mut nodes, out, 1);
    backwards(&mut map, &mut nodes).unwrap();
    assert_eq!(read_gradient(&nodes, x), 2);
    assert_eq!(read_gradient(&nodes, w), 3);
}

// A fixed two-input, one-neuron layer; scalars are in tenths, so a weight of
// 5 stands for one half.
fn run_fixed_layer() -> (Vec<i64>, Vec<i64>) {
    let (mut map, mut nodes) = fresh();
    let a = new_node(&mut nodes, 10);
    let b = new_node(&mut nodes, 10);
    let nrn = Neuron::with_weights(&mut nodes, &vec![5, -5], 1);
    let layer = Layer::from_neurons(vec![nrn]);
    let outs = layer.connect(&mut map, &mut nodes, vec![a, b]).unwrap();
    set_gradient(&mut nodes, outs[0], 1);
    backwards(&mut map, &mut nodes).unwrap();
    let values: Vec<i64> = (0..nodes.len()).map(|i| read_value(&nodes, i)).collect();
    let gradients: Vec<i64> = (0..nodes.len()).map(|i| read_gradient(&nodes, i)).collect();
    (values, gradients)
}

#[test]
fn fixed_layer_is_deterministic() {
    let (values1, gradients1) = run_fixed_layer();
    let (values2, gradients2) = run_fixed_layer();
    assert_eq!(values1, values2);
    assert_eq!(gradients1, gradients2);
    // Two input leaves, three neuron leaves, then the neuron's block of two
    // products, the sum and the rectified output.
    assert_eq!(values1.len(), 9);
    // The neuron sums the bias with the last product: relu(1 + 10 * -5) = 0.
    assert_eq!(*values1.last().unwrap(), 0);
    // A rectified zero passes no gradient down.
    assert_eq!(gradients1[0], 0);
    assert_eq!(gradients1[1], 0);
}
