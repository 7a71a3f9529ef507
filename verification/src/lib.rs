//! A small reverse-mode automatic-differentiation engine over integer
//! scalars. Operator applications build an append-only computation graph;
//! a backward pass then pushes gradients from the output toward the leaves
//! by the chain rule, accumulating additively at every node.

pub mod backward;
pub mod laws;
pub mod layer;
pub mod math;
pub mod node;
