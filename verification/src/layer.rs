//! The capability interface of a network layer.
//!
//! A concrete layer offers construction of a fresh or an adopting layer,
//! forward inference, backward gradient propagation, and three parameter
//! update rules.  Each operation's meaning is fixed by the implementing
//! type through the associated spec functions: a caller working through
//! the interface learns exactly what the implementation declares there.

use vstd::prelude::*;
use crate::bias::{AdamConfig, MomentumConfig};
use crate::error::Error;
use crate::node::NodeLayer;
use crate::shape::{Shape, dim_product};
use crate::storage::Storage;
use crate::tensor::Tensor;

verus! {

/// The capability set every concrete layer supports.  The learnable state
/// is one rank-4 parameter tensor.
pub trait Layer<const CAP: usize>: Sized {
    /// The layer's learnable parameter tensor.
    spec fn param(&self) -> Tensor<i64, 4, CAP>;

    /// The layer's internal invariant.
    spec fn inv(&self) -> bool;

    /// When the forward pass may run.
    spec fn inference_pre(&self, input: NodeLayer<i64, CAP>, output: NodeLayer<i64, CAP>) -> bool;

    /// What the forward pass computes.
    spec fn inference_post(
        &self,
        input: NodeLayer<i64, CAP>,
        old_output: NodeLayer<i64, CAP>,
        new_output: NodeLayer<i64, CAP>,
    ) -> bool;

    /// When the backward pass may run.
    spec fn backprop_pre(
        &self,
        output_delta: Tensor<i64, 5, CAP>,
        input_delta: Tensor<i64, 5, CAP>,
        grad: Tensor<i64, 4, CAP>,
    ) -> bool;

    /// What the backward pass computes.
    spec fn backprop_post(
        &self,
        output_delta: Tensor<i64, 5, CAP>,
        new_input_delta: Tensor<i64, 5, CAP>,
        old_grad: Tensor<i64, 4, CAP>,
        new_grad: Tensor<i64, 4, CAP>,
    ) -> bool;

    /// When the plain update may run.
    spec fn grad_descent_pre(&self, grad: Tensor<i64, 4, CAP>) -> bool;

    /// What the plain update does to the parameters.
    spec fn grad_descent_post(old_self: Self, new_self: Self, grad: Tensor<i64, 4, CAP>) -> bool;

    /// When the momentum update may run.
    spec fn momentum_pre(
        &self,
        grad: Tensor<i64, 4, CAP>,
        momentum: Tensor<i64, 4, CAP>,
        cfg: MomentumConfig,
    ) -> bool;

    /// What the momentum update does to the parameters and the
    /// accumulator.
    spec fn momentum_post(
        old_self: Self,
        new_self: Self,
        grad: Tensor<i64, 4, CAP>,
        old_momentum: Tensor<i64, 4, CAP>,
        new_momentum: Tensor<i64, 4, CAP>,
        cfg: MomentumConfig,
    ) -> bool;

    /// When the adaptive-moment update may run.
    spec fn adam_pre(
        &self,
        grad: Tensor<i64, 4, CAP>,
        momentum: Tensor<i64, 4, CAP>,
        velocity: Tensor<i64, 4, CAP>,
        cfg: AdamConfig,
    ) -> bool;

    /// What the adaptive-moment update does to the parameters and the two
    /// accumulators.
    spec fn adam_post(
        old_self: Self,
        new_self: Self,
        grad: Tensor<i64, 4, CAP>,
        old_momentum: Tensor<i64, 4, CAP>,
        new_momentum: Tensor<i64, 4, CAP>,
        old_velocity: Tensor<i64, 4, CAP>,
        new_velocity: Tensor<i64, 4, CAP>,
        cfg: AdamConfig,
    ) -> bool;

    /// A fresh layer whose parameter tensor is zero initialized with the
    /// given shape.
    fn new(shape: Shape<4>) -> (r: Self)
        requires
            shape.wf(),
        ensures
            r.inv(),
            r.param().wf(),
            r.param().dims() == shape@,
            r.param()@.len() == dim_product(shape@),
            forall|k: int| 0 <= k < r.param()@.len() ==> r.param()@[k] == 0i64,
    ;

    /// A fresh layer whose parameter tensor adopts the supplied storage
    /// without copying it; fails when the storage length does not equal
    /// the shape's element count.
    fn take(shape: Shape<4>, storage: Storage<i64, CAP>) -> (r: Result<Self, Error>)
        requires
            shape.wf(),
            storage.wf(),
        ensures
            storage@.len() != dim_product(shape@) ==> r == Result::<Self, Error>::Err(
                Error::ShapeStorageMismatch,
            ),
            storage@.len() == dim_product(shape@) ==> (r matches Ok(l)
                && l.inv()
                && l.param().wf()
                && l.param().dims() == shape@
                && l.param()@ == storage@),
    ;

    /// Forward pass into a caller-allocated output.
    fn inference(&self, input: &NodeLayer<i64, CAP>, output: &mut NodeLayer<i64, CAP>)
        requires
            self.inv(),
            self.inference_pre(*input, *old(output)),
        ensures
            self.inference_post(*input, *old(output), *final(output)),
    ;

    /// Backward pass: produces the input-side delta and accumulates the
    /// parameter gradient.
    fn backprop(
        &self,
        output: &NodeLayer<i64, CAP>,
        input: &mut NodeLayer<i64, CAP>,
        output_delta: &Tensor<i64, 5, CAP>,
        input_delta: &mut Tensor<i64, 5, CAP>,
        grad: &mut Tensor<i64, 4, CAP>,
    )
        requires
            self.inv(),
            self.backprop_pre(*output_delta, *old(input_delta), *old(grad)),
        ensures
            *final(input) == *old(input),
            self.backprop_post(*output_delta, *final(input_delta), *old(grad), *final(grad)),
    ;

    /// Plain gradient descent on the parameters.
    fn grad_descent(&mut self, grad: &Tensor<i64, 4, CAP>)
        requires
            old(self).inv(),
            old(self).grad_descent_pre(*grad),
        ensures
            final(self).inv(),
            Self::grad_descent_post(*old(self), *final(self), *grad),
    ;

    /// Momentum gradient descent on the parameters.
    fn grad_descent_momentum(
        &mut self,
        grad: &Tensor<i64, 4, CAP>,
        momentum: &mut Tensor<i64, 4, CAP>,
        cfg: &MomentumConfig,
    )
        requires
            old(self).inv(),
            old(self).momentum_pre(*grad, *old(momentum), *cfg),
        ensures
            final(self).inv(),
            Self::momentum_post(
                *old(self),
                *final(self),
                *grad,
                *old(momentum),
                *final(momentum),
                *cfg,
            ),
    ;

    /// Adaptive-moment gradient descent on the parameters.
    fn grad_descent_adam(
        &mut self,
        grad: &Tensor<i64, 4, CAP>,
        momentum: &mut Tensor<i64, 4, CAP>,
        velocity: &mut Tensor<i64, 4, CAP>,
        cfg: &AdamConfig,
    )
        requires
            old(self).inv(),
            old(self).adam_pre(*grad, *old(momentum), *old(velocity), *cfg),
        ensures
            final(self).inv(),
            Self::adam_post(
                *old(self),
                *final(self),
                *grad,
                *old(momentum),
                *final(momentum),
                *old(velocity),
                *final(velocity),
                *cfg,
            ),
    ;
}

} // verus!
