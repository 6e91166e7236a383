//! Tensor storage and layer abstraction for a small neural-network core.
//!
//! A [`shape::Shape`] describes the dimensions of a multidimensional buffer,
//! a [`storage::Storage`] owns the flat element buffer, and a
//! [`tensor::Tensor`] pairs the two, keeping the buffer length equal to the
//! shape's element count.  [`bias::BiasLayer`] is the reference layer built
//! on top of them: it adds a learned bias to incoming activations and
//! supports plain, momentum and adaptive-moment gradient updates.

pub mod arith;
pub mod bias;
pub mod error;
pub mod layer;
pub mod node;
pub mod shape;
pub mod storage;
pub mod tensor;
