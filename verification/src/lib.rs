//! A single-input/single-output streaming compute stage.
//!
//! A [`node::GenericComputeNode_1_1`] binds one upstream receiver, one
//! downstream sender and one transform into a runnable unit: it drains the
//! upstream channel item by item, hands each item to the transform, forwards
//! whatever the transform chooses to emit, and makes exactly one final
//! end-of-stream call once the upstream is corked, so that a stateful
//! transform can flush. A poisoned upstream stops the node without a normal
//! completion.

pub mod channel;
pub mod laws;
pub mod node;
pub mod transforms;
