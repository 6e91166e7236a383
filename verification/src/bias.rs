//! A layer that adds a learned bias to incoming activations.
//!
//! The layer owns one rank-4 tensor of bias values whose leading dimension
//! is one batch: during the forward pass the bias is added to every batch
//! of the input activations.  The backward pass passes deltas through
//! unchanged and accumulates the per-batch sums into a caller-owned
//! gradient tensor.  Three update rules adjust the bias in place; their
//! fractional coefficients are integer rationals and every quotient is
//! rounded toward zero (see [`crate::arith`]).

use vstd::prelude::*;
use vstd::arithmetic::power::pow;
use crate::layer::Layer;
use crate::arith::{in_i64, div_trunc, div_i64, sqrt_floor, isqrt_i64, pow_i64, pow_nonneg_i64,
    lemma_pow_base_lt, lemma_pow_base_le, lemma_div_trunc_bounds};
use crate::error::Error;
use crate::node::{NodeLayer, at4, at5, flat4, lemma_dim_product_rank4, lemma_dim_product_rank5,
    lemma_flat4_split, lemma_batch_offset};
use crate::shape::{Shape, dim_product};
use crate::storage::Storage;
use crate::tensor::Tensor;

verus! {

/// The sum of the first `b` per-batch entries of a rank-5 delta buffer at
/// within-batch offset `j`, where one batch spans `chw` elements.
pub open spec fn batch_sum(od: Seq<i64>, chw: int, j: int, b: int) -> int
    decreases b,
{
    if b <= 0 {
        0
    } else {
        batch_sum(od, chw, j, b - 1) + od[(b - 1) * chw + j]
    }
}

/// Coefficients of the momentum update.  The learning rate is the rational
/// `lr_num / lr_den` and the momentum coefficient is `beta_num / beta_den`;
/// both live with the caller, not with the layer.
#[derive(Clone, Copy, Debug, PartialEq, Eq, Structural)]
pub struct MomentumConfig {
    pub lr_num: i64,
    pub lr_den: i64,
    pub beta_num: i64,
    pub beta_den: i64,
}

impl MomentumConfig {
    /// Positive denominators, a momentum coefficient between zero and one,
    /// and a nonnegative learning rate.
    pub open spec fn wf(&self) -> bool {
        self.lr_den >= 1 && self.lr_num >= 0 && self.beta_den >= 1 && 0 <= self.beta_num
            <= self.beta_den
    }
}

/// One momentum accumulator step:
/// `beta * momentum + (1 - beta) * gradient`, with `beta` the rational
/// `beta_num / beta_den` and the quotient rounded toward zero.
pub open spec fn momentum_step(cfg: MomentumConfig, m: int, g: int) -> int {
    div_trunc(cfg.beta_num * m + (cfg.beta_den - cfg.beta_num) * g, cfg.beta_den as int)
}

/// One momentum parameter step: `parameter - lr * momentum`, with `lr` the
/// rational `lr_num / lr_den` and the quotient rounded toward zero.
pub open spec fn momentum_param_step(cfg: MomentumConfig, p: int, m1: int) -> int {
    p - div_trunc(cfg.lr_num * m1, cfg.lr_den as int)
}

/// Every intermediate value of one momentum update on parameter `p`,
/// accumulator `m` and gradient `g` fits in a machine word.
pub open spec fn momentum_fits(cfg: MomentumConfig, p: int, m: int, g: int) -> bool {
    &&& in_i64(cfg.beta_num * m)
    &&& in_i64((cfg.beta_den - cfg.beta_num) * g)
    &&& in_i64(cfg.beta_num * m + (cfg.beta_den - cfg.beta_num) * g)
    &&& in_i64(cfg.lr_num * momentum_step(cfg, m, g))
    &&& in_i64(momentum_param_step(cfg, p, momentum_step(cfg, m, g)))
}

/// Coefficients of the adaptive-moment update.  The learning rate is
/// `lr_num / lr_den`, the moment coefficients are `beta1_num / beta1_den`
/// and `beta2_num / beta2_den`, `epsilon` guards the divisor, and `step`
/// is the one-based optimizer step counter used for bias correction.  All
/// of them live with the caller, not with the layer.
#[derive(Clone, Copy, Debug, PartialEq, Eq, Structural)]
pub struct AdamConfig {
    pub lr_num: i64,
    pub lr_den: i64,
    pub beta1_num: i64,
    pub beta1_den: i64,
    pub beta2_num: i64,
    pub beta2_den: i64,
    pub epsilon: i64,
    pub step: u32,
}

impl AdamConfig {
    /// Nonnegative learning rate, moment coefficients strictly below one,
    /// a positive `epsilon`, a positive step counter, and powers of the
    /// denominators that fit in a machine word.
    pub open spec fn wf(&self) -> bool {
        &&& self.lr_den >= 1
        &&& self.lr_num >= 0
        &&& 0 <= self.beta1_num < self.beta1_den
        &&& 0 <= self.beta2_num < self.beta2_den
        &&& self.epsilon >= 1
        &&& self.step >= 1
        &&& pow(self.beta1_den as int, self.step as nat) <= i64::MAX
        &&& pow(self.beta2_den as int, self.step as nat) <= i64::MAX
    }
}

/// One first-moment step: `beta1 * momentum + (1 - beta1) * gradient`,
/// with the quotient rounded toward zero.
pub open spec fn adam_m_step(cfg: AdamConfig, m: int, g: int) -> int {
    div_trunc(cfg.beta1_num * m + (cfg.beta1_den - cfg.beta1_num) * g, cfg.beta1_den as int)
}

/// One second-moment step: `beta2 * velocity + (1 - beta2) * gradient^2`,
/// with the quotient rounded toward zero.
pub open spec fn adam_v_step(cfg: AdamConfig, v: int, g: int) -> int {
    div_trunc(cfg.beta2_num * v + (cfg.beta2_den - cfg.beta2_num) * (g * g), cfg.beta2_den as int)
}

/// The bias-corrected first moment: the updated momentum divided by
/// `1 - beta1^step`, carried out on integers as
/// `m * beta1_den^step / (beta1_den^step - beta1_num^step)`.
pub open spec fn adam_m_hat(cfg: AdamConfig, m1: int) -> int {
    div_trunc(
        m1 * pow(cfg.beta1_den as int, cfg.step as nat),
        pow(cfg.beta1_den as int, cfg.step as nat) - pow(cfg.beta1_num as int, cfg.step as nat),
    )
}

/// The bias-corrected second moment, divided by `1 - beta2^step` in the
/// same integer form.
pub open spec fn adam_v_hat(cfg: AdamConfig, v1: int) -> int {
    div_trunc(
        v1 * pow(cfg.beta2_den as int, cfg.step as nat),
        pow(cfg.beta2_den as int, cfg.step as nat) - pow(cfg.beta2_num as int, cfg.step as nat),
    )
}

/// One adaptive-moment parameter step:
/// `parameter - lr * m_hat / (sqrt(v_hat) + epsilon)`, with the square
/// root rounded down and the quotients rounded toward zero.
pub open spec fn adam_param_step(cfg: AdamConfig, p: int, m1: int, v1: int) -> int {
    p - div_trunc(
        cfg.lr_num * adam_m_hat(cfg, m1),
        cfg.lr_den * (sqrt_floor(adam_v_hat(cfg, v1)) + cfg.epsilon),
    )
}

/// Every intermediate value of one adaptive-moment update on parameter
/// `p`, moments `m` and `v` and gradient `g` fits in a machine word.
pub open spec fn adam_fits(cfg: AdamConfig, p: int, m: int, v: int, g: int) -> bool {
    &&& in_i64(cfg.beta1_num * m)
    &&& in_i64((cfg.beta1_den - cfg.beta1_num) * g)
    &&& in_i64(cfg.beta1_num * m + (cfg.beta1_den - cfg.beta1_num) * g)
    &&& in_i64(g * g)
    &&& in_i64(cfg.beta2_num * v)
    &&& in_i64((cfg.beta2_den - cfg.beta2_num) * (g * g))
    &&& in_i64(cfg.beta2_num * v + (cfg.beta2_den - cfg.beta2_num) * (g * g))
    &&& in_i64(adam_m_step(cfg, m, g) * pow(cfg.beta1_den as int, cfg.step as nat))
    &&& in_i64(adam_v_step(cfg, v, g) * pow(cfg.beta2_den as int, cfg.step as nat))
    &&& in_i64(cfg.lr_num * adam_m_hat(cfg, adam_m_step(cfg, m, g)))
    &&& in_i64(sqrt_floor(adam_v_hat(cfg, adam_v_step(cfg, v, g))) + cfg.epsilon)
    &&& in_i64(cfg.lr_den * (sqrt_floor(adam_v_hat(cfg, adam_v_step(cfg, v, g))) + cfg.epsilon))
    &&& in_i64(adam_param_step(cfg, p, adam_m_step(cfg, m, g), adam_v_step(cfg, v, g)))
}

/// A layer holding one rank-4 tensor of learned bias values.
#[derive(Debug)]
pub struct BiasLayer<const CAP: usize> {
    nodes: Tensor<i64, 4, CAP>,
}

impl<const CAP: usize> Clone for BiasLayer<CAP> {
    fn clone(&self) -> (r: Self)
        ensures
            r.bias()@ == self.bias()@,
            r.bias().dims() == self.bias().dims(),
            r.wf() == self.wf(),
    {
        BiasLayer { nodes: self.nodes.clone() }
    }
}

impl<const CAP: usize> BiasLayer<CAP> {
    /// The learned bias tensor.
    pub closed spec fn bias(&self) -> Tensor<i64, 4, CAP> {
        self.nodes
    }

    pub open spec fn wf(&self) -> bool {
        self.bias().wf()
    }

    /// A fresh layer whose bias tensor has the given shape and is zero
    /// initialized.
    pub fn new(shape: Shape<4>) -> (r: Self)
        requires
            shape.wf(),
        ensures
            r.wf(),
            r.bias().dims() == shape@,
            r.bias()@.len() == dim_product(shape@),
            forall|k: int| 0 <= k < r.bias()@.len() ==> r.bias()@[k] == 0i64,
    {
        BiasLayer { nodes: Tensor::new(shape, 0i64) }
    }

    /// A fresh layer whose bias tensor adopts the supplied storage without
    /// copying it.  Fails when the storage length does not equal the
    /// shape's element count; the adopted elements are handed over
    /// unchanged.
    pub fn take(shape: Shape<4>, storage: Storage<i64, CAP>) -> (r: Result<Self, Error>)
        requires
            shape.wf(),
            storage.wf(),
        ensures
            storage@.len() != dim_product(shape@) ==> r == Result::<Self, Error>::Err(
                Error::ShapeStorageMismatch,
            ),
            storage@.len() == dim_product(shape@) ==> (r matches Ok(l)
                && l.wf()
                && l.bias().dims() == shape@
                && l.bias()@ == storage@),
    {
        match Tensor::take(shape, storage) {
            Ok(nodes) => Ok(BiasLayer { nodes }),
            Err(e) => Err(e),
        }
    }

    /// Read access to the bias tensor.
    pub fn nodes(&self) -> (r: &Tensor<i64, 4, CAP>)
        ensures
            *r == self.bias(),
    {
        &self.nodes
    }

    /// Exclusive access to the bias tensor.
    pub fn nodes_mut(&mut self) -> (r: &mut Tensor<i64, 4, CAP>)
        ensures
            *r == old(self).bias(),
            final(self).bias() == *final(r),
    {
        &mut self.nodes
    }

    /// The shapes `inference` accepts for its input and output
    /// activations: equal shapes whose trailing three dimensions are the
    /// bias tensor's, with the bias broadcast over one leading batch
    /// dimension.
    pub open spec fn io_shapes_ok<const CI: usize, const CO: usize>(
        &self,
        input: NodeLayer<i64, CI>,
        output: NodeLayer<i64, CO>,
    ) -> bool {
        &&& input.dims() == output.dims()
        &&& self.bias().dims()[0] == 1
        &&& self.bias().dims()[1] == input.dims()[1]
        &&& self.bias().dims()[2] == input.dims()[2]
        &&& self.bias().dims()[3] == input.dims()[3]
    }

    /// Fail-fast shape validation for a forward pass: reports
    /// `DimensionMismatch` exactly when the activation shapes are
    /// incompatible with the layer, and accepts otherwise.
    pub fn check_io_shapes<const CI: usize, const CO: usize>(
        &self,
        input: &NodeLayer<i64, CI>,
        output: &NodeLayer<i64, CO>,
    ) -> (r: Result<(), Error>)
        requires
            self.wf(),
            input.wf(),
            output.wf(),
        ensures
            r == Result::<(), Error>::Ok(()) <==> self.io_shapes_ok(*input, *output),
            !self.io_shapes_ok(*input, *output) ==> r == Result::<(), Error>::Err(
                Error::DimensionMismatch,
            ),
    {
        proof {
            self.nodes.lemma_wf_facts();
            input.lemma_wf_facts();
            output.lemma_wf_facts();
        }
        let ok = input.shape().same_dims(output.shape()) && self.nodes.shape().dim(0) == 1
            && self.nodes.shape().dim(1) == input.shape().dim(1) && self.nodes.shape().dim(2)
            == input.shape().dim(2) && self.nodes.shape().dim(3) == input.shape().dim(3);
        if ok {
            Ok(())
        } else {
            Err(Error::DimensionMismatch)
        }
    }

    /// Forward pass: adds the bias to every batch of `input`, writing the
    /// sums into the caller-allocated `output`, which must already have the
    /// input's shape.  The bias tensor's leading dimension must be one; its
    /// values are broadcast across the batch dimension.
    #[verifier::loop_isolation(false)]
    pub fn inference<const CI: usize, const CO: usize>(
        &self,
        input: &NodeLayer<i64, CI>,
        output: &mut NodeLayer<i64, CO>,
    )
        requires
            self.wf(),
            input.wf(),
            old(output).wf(),
            self.io_shapes_ok(*input, *old(output)),
            forall|k: int|
                0 <= k < input@.len() ==> in_i64(
                    input@[k] + self.bias()@[k % (self.bias()@.len() as int)],
                ),
        ensures
            final(output).wf(),
            final(output).dims() == old(output).dims(),
            final(output)@.len() == input@.len(),
            forall|k: int|
                0 <= k < input@.len() ==> final(output)@[k] == input@[k] + self.bias()@[k % (
                self.bias()@.len() as int)],
            forall|b: int, c: int, h: int, w: int|
                0 <= b < input.dims()[0] && 0 <= c < input.dims()[1] && 0 <= h < input.dims()[2]
                    && 0 <= w < input.dims()[3] ==> at4(*final(output), b, c, h, w) == at4(
                    *input,
                    b,
                    c,
                    h,
                    w,
                ) + at4(self.bias(), 0, c, h, w),
    {
        proof {
            self.nodes.lemma_wf_facts();
            input.lemma_wf_facts();
            old(output).lemma_wf_facts();
            lemma_dim_product_rank4(self.nodes.dims());
            lemma_dim_product_rank4(input.dims());
        }
        let ghost d0: int = input.dims()[0] as int;
        let ghost d1: int = input.dims()[1] as int;
        let ghost d2: int = input.dims()[2] as int;
        let ghost d3: int = input.dims()[3] as int;
        let chw = self.nodes.element_count();
        let total = input.element_count();
        let bs = input.shape().dim(0);
        proof {
            assert(((d0 * d1) * d2) * d3 == d0 * (((1 * d1) * d2) * d3)) by (nonlinear_arith);
            assert(total as int == (bs as int) * (chw as int));
        }
        let mut b: usize = 0;
        let mut k: usize = 0;
        while b < bs
            invariant
                0 <= b <= bs,
                k as int == (b as int) * (chw as int),
                k <= total,
                output.wf(),
                output.dims() == old(output).dims(),
                output@.len() == total,
                forall|i: int|
                    0 <= i < k ==> output@[i] == input@[i] + self.bias()@[i % (chw as int)],
            decreases bs - b,
        {
            let mut j: usize = 0;
            while j < chw
                invariant
                    0 <= j <= chw,
                    b < bs,
                    k as int == (b as int) * (chw as int) + j,
                    k <= total,
                    output.wf(),
                    output.dims() == old(output).dims(),
                    output@.len() == total,
                    forall|i: int|
                        0 <= i < k ==> output@[i] == input@[i] + self.bias()@[i % (chw as int)],
                decreases chw - j,
            {
                proof {
                    lemma_batch_offset(b as int, j as int, bs as int, chw as int);
                }
                let v = input.get_linear(k) + self.nodes.get_linear(j);
                output.set_linear(k, v);
                k = k + 1;
                j = j + 1;
            }
            proof {
                assert((b as int + 1) * (chw as int) == (b as int) * (chw as int) + (chw as int))
                    by (nonlinear_arith);
            }
            b = b + 1;
        }
        proof {
            let outv = *output;
            assert forall|bb: int, c: int, h: int, w: int|
                0 <= bb < d0 && 0 <= c < d1 && 0 <= h < d2 && 0 <= w < d3 implies at4(
                outv,
                bb,
                c,
                h,
                w,
            ) == at4(*input, bb, c, h, w) + at4(self.bias(), 0, c, h, w) by {
                lemma_flat4_split(bb, c, h, w, d1, d2, d3);
                let f3 = flat4(0, c, h, w, d1, d2, d3);
                lemma_batch_offset(bb, f3, d0, (chw as int));
                assert(flat4(bb, c, h, w, d1, d2, d3) == bb * (chw as int) + f3);
            }
        }
    }

    /// Backward pass.  The forward map is an elementwise addition, so the
    /// input-side delta is the output-side delta unchanged, and the sum of
    /// `output_delta` over the batch dimension is added into the
    /// caller-owned `grad` accumulator.  The delta tensors are rank 5,
    /// batch x channel x height x width x component, with one component.
    /// The activation tensors are not consulted and stay unchanged.
    #[verifier::loop_isolation(false)]
    pub fn backprop<const CI: usize, const CO: usize>(
        &self,
        output: &NodeLayer<i64, CO>,
        input: &mut NodeLayer<i64, CI>,
        output_delta: &Tensor<i64, 5, CO>,
        input_delta: &mut Tensor<i64, 5, CI>,
        grad: &mut Tensor<i64, 4, CAP>,
    )
        requires
            self.wf(),
            output_delta.wf(),
            old(input_delta).wf(),
            old(grad).wf(),
            self.bias().dims()[0] == 1,
            old(grad).dims() == self.bias().dims(),
            old(input_delta).dims() == output_delta.dims(),
            output_delta.dims()[1] == self.bias().dims()[1],
            output_delta.dims()[2] == self.bias().dims()[2],
            output_delta.dims()[3] == self.bias().dims()[3],
            output_delta.dims()[4] == 1,
            forall|j: int, b: int|
                0 <= j < old(grad)@.len() && 0 <= b <= output_delta.dims()[0] ==> in_i64(
                    old(grad)@[j] + batch_sum(output_delta@, old(grad)@.len() as int, j, b),
                ),
        ensures
            *final(input) == *old(input),
            final(input_delta).wf(),
            final(input_delta).dims() == old(input_delta).dims(),
            final(input_delta)@ == output_delta@,
            forall|b: int, c: int, h: int, w: int|
                0 <= b < output_delta.dims()[0] && 0 <= c < output_delta.dims()[1] && 0 <= h
                    < output_delta.dims()[2] && 0 <= w < output_delta.dims()[3] ==> at5(
                    *final(input_delta),
                    b,
                    c,
                    h,
                    w,
                    0,
                ) == at5(*output_delta, b, c, h, w, 0),
            final(grad).wf(),
            final(grad).dims() == old(grad).dims(),
            final(grad)@.len() == old(grad)@.len(),
            forall|j: int|
                0 <= j < old(grad)@.len() ==> final(grad)@[j] == old(grad)@[j] + batch_sum(
                    output_delta@,
                    old(grad)@.len() as int,
                    j,
                    output_delta.dims()[0] as int,
                ),
            forall|c: int, h: int, w: int|
                0 <= c < old(grad).dims()[1] && 0 <= h < old(grad).dims()[2] && 0 <= w < old(
                    grad,
                ).dims()[3] ==> at4(*final(grad), 0, c, h, w) == at4(*old(grad), 0, c, h, w)
                    + batch_sum(
                    output_delta@,
                    old(grad)@.len() as int,
                    flat4(
                        0,
                        c,
                        h,
                        w,
                        old(grad).dims()[1] as int,
                        old(grad).dims()[2] as int,
                        old(grad).dims()[3] as int,
                    ),
                    output_delta.dims()[0] as int,
                ),
    {
        proof {
            self.nodes.lemma_wf_facts();
            output_delta.lemma_wf_facts();
            old(input_delta).lemma_wf_facts();
            old(grad).lemma_wf_facts();
            lemma_dim_product_rank5(output_delta.dims());
            lemma_dim_product_rank4(old(grad).dims());
        }
        let ghost bsg: int = output_delta.dims()[0] as int;
        let ghost d1: int = output_delta.dims()[1] as int;
        let ghost d2: int = output_delta.dims()[2] as int;
        let ghost d3: int = output_delta.dims()[3] as int;
        let od_total = output_delta.element_count();
        proof {
            assert((((bsg * d1) * d2) * d3) * 1 == bsg * (((1 * d1) * d2) * d3))
                by (nonlinear_arith);
        }
        let mut k: usize = 0;
        while k < od_total
            invariant
                0 <= k <= od_total,
                input_delta.wf(),
                input_delta.dims() == old(input_delta).dims(),
                input_delta@.len() == od_total,
                forall|i: int| 0 <= i < k ==> input_delta@[i] == output_delta@[i],
            decreases od_total - k,
        {
            let v = output_delta.get_linear(k);
            input_delta.set_linear(k, v);
            k = k + 1;
        }
        proof {
            assert(input_delta@ =~= output_delta@);
        }
        let chw = grad.element_count();
        let bs = output_delta.shape().dim(0);
        let mut j: usize = 0;
        while j < chw
            invariant
                0 <= j <= chw,
                grad.wf(),
                grad.dims() == old(grad).dims(),
                grad@.len() == chw,
                forall|i: int|
                    0 <= i < j ==> grad@[i] == old(grad)@[i] + batch_sum(
                        output_delta@,
                        chw as int,
                        i,
                        bs as int,
                    ),
                forall|i: int| j <= i < chw ==> grad@[i] == old(grad)@[i],
            decreases chw - j,
        {
            let mut acc: i64 = grad.get_linear(j);
            let mut b: usize = 0;
            while b < bs
                invariant
                    0 <= b <= bs,
                    j < chw,
                    acc as int == old(grad)@[j as int] + batch_sum(
                        output_delta@,
                        chw as int,
                        j as int,
                        b as int,
                    ),
                decreases bs - b,
            {
                proof {
                    lemma_batch_offset(b as int, j as int, bs as int, chw as int);
                    assert(batch_sum(output_delta@, chw as int, j as int, b as int + 1)
                        == batch_sum(output_delta@, chw as int, j as int, b as int)
                        + output_delta@[(b as int) * (chw as int) + j]);
                }
                let idx = b * chw + j;
                acc = acc + output_delta.get_linear(idx);
                b = b + 1;
            }
            grad.set_linear(j, acc);
            j = j + 1;
        }
        proof {
            let gradv = *grad;
            assert forall|c: int, h: int, w: int|
                0 <= c < d1 && 0 <= h < d2 && 0 <= w < d3 implies at4(gradv, 0, c, h, w) == at4(
                *old(grad),
                0,
                c,
                h,
                w,
            ) + batch_sum(
                output_delta@,
                chw as int,
                flat4(0, c, h, w, d1, d2, d3),
                bs as int,
            ) by {
                lemma_flat4_split(0, c, h, w, d1, d2, d3);
            }
        }
    }

    /// Plain gradient descent: subtracts the supplied gradient from the
    /// bias, element for element.  The gradient is expected to carry any
    /// learning-rate scaling already.
    #[verifier::loop_isolation(false)]
    pub fn grad_descent<const CG: usize>(&mut self, grad: &Tensor<i64, 4, CG>)
        requires
            old(self).wf(),
            grad.wf(),
            grad.dims() == old(self).bias().dims(),
            forall|k: int|
                0 <= k < old(self).bias()@.len() ==> in_i64(old(self).bias()@[k] - grad@[k]),
        ensures
            final(self).wf(),
            final(self).bias().dims() == old(self).bias().dims(),
            final(self).bias()@.len() == old(self).bias()@.len(),
            forall|k: int|
                0 <= k < final(self).bias()@.len() ==> final(self).bias()@[k] == old(
                    self,
                ).bias()@[k] - grad@[k],
    {
        proof {
            old(self).bias().lemma_wf_facts();
            grad.lemma_wf_facts();
        }
        let total = self.nodes.element_count();
        let mut k: usize = 0;
        while k < total
            invariant
                0 <= k <= total,
                self.nodes.wf(),
                self.nodes.dims() == old(self).nodes.dims(),
                self.nodes@.len() == total,
                forall|i: int|
                    0 <= i < k ==> self.nodes@[i] == old(self).nodes@[i] - grad@[i],
                forall|i: int| k <= i < total ==> self.nodes@[i] == old(self).nodes@[i],
            decreases total - k,
        {
            let v = self.nodes.get_linear(k) - grad.get_linear(k);
            self.nodes.set_linear(k, v);
            k = k + 1;
        }
    }

    /// Momentum gradient descent: folds the gradient into the caller-owned
    /// momentum accumulator, `beta * momentum + (1 - beta) * gradient`,
    /// then subtracts `lr * momentum` from the bias, element for element.
    #[verifier::loop_isolation(false)]
    pub fn grad_descent_momentum<const CG: usize, const CM: usize>(
        &mut self,
        grad: &Tensor<i64, 4, CG>,
        momentum: &mut Tensor<i64, 4, CM>,
        cfg: &MomentumConfig,
    )
        requires
            old(self).wf(),
            grad.wf(),
            old(momentum).wf(),
            cfg.wf(),
            grad.dims() == old(self).bias().dims(),
            old(momentum).dims() == old(self).bias().dims(),
            forall|k: int|
                0 <= k < old(self).bias()@.len() ==> momentum_fits(
                    *cfg,
                    old(self).bias()@[k] as int,
                    old(momentum)@[k] as int,
                    grad@[k] as int,
                ),
        ensures
            final(self).wf(),
            final(self).bias().dims() == old(self).bias().dims(),
            final(self).bias()@.len() == old(self).bias()@.len(),
            final(momentum).wf(),
            final(momentum).dims() == old(momentum).dims(),
            final(momentum)@.len() == old(momentum)@.len(),
            forall|k: int|
                0 <= k < old(self).bias()@.len() ==> final(momentum)@[k] as int == momentum_step(
                    *cfg,
                    old(momentum)@[k] as int,
                    grad@[k] as int,
                ),
            forall|k: int|
                0 <= k < old(self).bias()@.len() ==> final(self).bias()@[k] as int
                    == momentum_param_step(
                    *cfg,
                    old(self).bias()@[k] as int,
                    momentum_step(*cfg, old(momentum)@[k] as int, grad@[k] as int),
                ),
    {
        proof {
            old(self).bias().lemma_wf_facts();
            grad.lemma_wf_facts();
            old(momentum).lemma_wf_facts();
        }
        let total = self.nodes.element_count();
        let mut k: usize = 0;
        while k < total
            invariant
                0 <= k <= total,
                self.nodes.wf(),
                self.nodes.dims() == old(self).nodes.dims(),
                self.nodes@.len() == total,
                momentum.wf(),
                momentum.dims() == old(momentum).dims(),
                momentum@.len() == total,
                forall|i: int|
                    0 <= i < k ==> momentum@[i] as int == momentum_step(
                        *cfg,
                        old(momentum)@[i] as int,
                        grad@[i] as int,
                    ),
                forall|i: int| k <= i < total ==> momentum@[i] == old(momentum)@[i],
                forall|i: int|
                    0 <= i < k ==> self.nodes@[i] as int == momentum_param_step(
                        *cfg,
                        old(self).nodes@[i] as int,
                        momentum_step(*cfg, old(momentum)@[i] as int, grad@[i] as int),
                    ),
                forall|i: int| k <= i < total ==> self.nodes@[i] == old(self).nodes@[i],
            decreases total - k,
        {
            let m = momentum.get_linear(k);
            let g = grad.get_linear(k);
            let m1 = div_i64(cfg.beta_num * m + (cfg.beta_den - cfg.beta_num) * g, cfg.beta_den);
            momentum.set_linear(k, m1);
            let p = self.nodes.get_linear(k);
            let p1 = p - div_i64(cfg.lr_num * m1, cfg.lr_den);
            self.nodes.set_linear(k, p1);
            k = k + 1;
        }
    }

    /// Adaptive-moment gradient descent: folds the gradient into the
    /// caller-owned first and second moment accumulators, corrects both
    /// for startup bias with the step counter, and subtracts
    /// `lr * m_hat / (sqrt(v_hat) + epsilon)` from the bias, element for
    /// element.
    #[verifier::loop_isolation(false)]
    pub fn grad_descent_adam<const CG: usize, const CM: usize, const CV: usize>(
        &mut self,
        grad: &Tensor<i64, 4, CG>,
        momentum: &mut Tensor<i64, 4, CM>,
        velocity: &mut Tensor<i64, 4, CV>,
        cfg: &AdamConfig,
    )
        requires
            old(self).wf(),
            grad.wf(),
            old(momentum).wf(),
            old(velocity).wf(),
            cfg.wf(),
            grad.dims() == old(self).bias().dims(),
            old(momentum).dims() == old(self).bias().dims(),
            old(velocity).dims() == old(self).bias().dims(),
            forall|k: int| 0 <= k < old(self).bias()@.len() ==> old(velocity)@[k] >= 0,
            forall|k: int|
                0 <= k < old(self).bias()@.len() ==> adam_fits(
                    *cfg,
                    old(self).bias()@[k] as int,
                    old(momentum)@[k] as int,
                    old(velocity)@[k] as int,
                    grad@[k] as int,
                ),
        ensures
            final(self).wf(),
            final(self).bias().dims() == old(self).bias().dims(),
            final(self).bias()@.len() == old(self).bias()@.len(),
            final(momentum).wf(),
            final(momentum).dims() == old(momentum).dims(),
            final(momentum)@.len() == old(momentum)@.len(),
            final(velocity).wf(),
            final(velocity).dims() == old(velocity).dims(),
            final(velocity)@.len() == old(velocity)@.len(),
            forall|k: int|
                0 <= k < old(self).bias()@.len() ==> final(momentum)@[k] as int == adam_m_step(
                    *cfg,
                    old(momentum)@[k] as int,
                    grad@[k] as int,
                ),
            forall|k: int|
                0 <= k < old(self).bias()@.len() ==> final(velocity)@[k] as int == adam_v_step(
                    *cfg,
                    old(velocity)@[k] as int,
                    grad@[k] as int,
                ),
            forall|k: int| 0 <= k < old(self).bias()@.len() ==> final(velocity)@[k] >= 0,
            forall|k: int|
                0 <= k < old(self).bias()@.len() ==> final(self).bias()@[k] as int
                    == adam_param_step(
                    *cfg,
                    old(self).bias()@[k] as int,
                    adam_m_step(*cfg, old(momentum)@[k] as int, grad@[k] as int),
                    adam_v_step(*cfg, old(velocity)@[k] as int, grad@[k] as int),
                ),
    {
        proof {
            old(self).bias().lemma_wf_facts();
            grad.lemma_wf_facts();
            old(momentum).lemma_wf_facts();
            old(velocity).lemma_wf_facts();
            lemma_pow_base_le(cfg.beta1_num as int, cfg.beta1_den as int, cfg.step as nat);
            lemma_pow_base_le(cfg.beta2_num as int, cfg.beta2_den as int, cfg.step as nat);
            lemma_pow_base_lt(cfg.beta1_num as int, cfg.beta1_den as int, cfg.step as nat);
            lemma_pow_base_lt(cfg.beta2_num as int, cfg.beta2_den as int, cfg.step as nat);
        }
        let c1 = pow_i64(cfg.beta1_den, cfg.step);
        let c1n = pow_nonneg_i64(cfg.beta1_num, cfg.step);
        let corr1 = c1 - c1n;
        let c2 = pow_i64(cfg.beta2_den, cfg.step);
        let c2n = pow_nonneg_i64(cfg.beta2_num, cfg.step);
        let corr2 = c2 - c2n;
        let total = self.nodes.element_count();
        let mut k: usize = 0;
        while k < total
            invariant
                0 <= k <= total,
                self.nodes.wf(),
                self.nodes.dims() == old(self).nodes.dims(),
                self.nodes@.len() == total,
                momentum.wf(),
                momentum.dims() == old(momentum).dims(),
                momentum@.len() == total,
                velocity.wf(),
                velocity.dims() == old(velocity).dims(),
                velocity@.len() == total,
                forall|i: int|
                    0 <= i < k ==> momentum@[i] as int == adam_m_step(
                        *cfg,
                        old(momentum)@[i] as int,
                        grad@[i] as int,
                    ),
                forall|i: int| k <= i < total ==> momentum@[i] == old(momentum)@[i],
                forall|i: int|
                    0 <= i < k ==> velocity@[i] as int == adam_v_step(
                        *cfg,
                        old(velocity)@[i] as int,
                        grad@[i] as int,
                    ),
                forall|i: int| 0 <= i < k ==> velocity@[i] >= 0,
                forall|i: int| k <= i < total ==> velocity@[i] == old(velocity)@[i],
                forall|i: int|
                    0 <= i < k ==> self.nodes@[i] as int == adam_param_step(
                        *cfg,
                        old(self).nodes@[i] as int,
                        adam_m_step(*cfg, old(momentum)@[i] as int, grad@[i] as int),
                        adam_v_step(*cfg, old(velocity)@[i] as int, grad@[i] as int),
                    ),
                forall|i: int| k <= i < total ==> self.nodes@[i] == old(self).nodes@[i],
            decreases total - k,
        {
            let m = momentum.get_linear(k);
            let g = grad.get_linear(k);
            let v = velocity.get_linear(k);
            let p = self.nodes.get_linear(k);
            let m1 = div_i64(cfg.beta1_num * m + (cfg.beta1_den - cfg.beta1_num) * g, cfg.beta1_den);
            let gg = g * g;
            let v1 = div_i64(cfg.beta2_num * v + (cfg.beta2_den - cfg.beta2_num) * gg, cfg.beta2_den);
            proof {
                assert(cfg.beta2_num * (v as int) >= 0) by (nonlinear_arith)
                    requires
                        cfg.beta2_num >= 0,
                        v >= 0,
                ;
                assert((g as int) * (g as int) >= 0) by (nonlinear_arith);
                assert((cfg.beta2_den - cfg.beta2_num) * ((g as int) * (g as int)) >= 0)
                    by (nonlinear_arith)
                    requires
                        cfg.beta2_den - cfg.beta2_num >= 0,
                        (g as int) * (g as int) >= 0,
                ;
                lemma_div_trunc_bounds(
                    cfg.beta2_num * (v as int) + (cfg.beta2_den - cfg.beta2_num) * ((g as int) * (
                    g as int)),
                    cfg.beta2_den as int,
                );
            }
            momentum.set_linear(k, m1);
            velocity.set_linear(k, v1);
            let m_hat = div_i64(m1 * c1, corr1);
            let v_hat = div_i64(v1 * c2, corr2);
            proof {
                assert((v1 as int) * (c2 as int) >= 0) by (nonlinear_arith)
                    requires
                        v1 >= 0,
                        c2 >= 0,
                ;
                lemma_div_trunc_bounds((v1 as int) * (c2 as int), corr2 as int);
            }
            let s = isqrt_i64(v_hat);
            let sum_se = s + cfg.epsilon;
            let denom = cfg.lr_den * sum_se;
            proof {
                assert(cfg.lr_den * (sum_se as int) >= 1) by (nonlinear_arith)
                    requires
                        cfg.lr_den >= 1,
                        sum_se >= 1,
                ;
            }
            let upd = div_i64(cfg.lr_num * m_hat, denom);
            let p1 = p - upd;
            self.nodes.set_linear(k, p1);
            k = k + 1;
        }
    }
}


/// The bias layer offers the full layer capability set.  The associated
/// spec functions restate the inherent contracts, so callers working
/// through the interface see the same guarantees.
impl<const CAP: usize> Layer<CAP> for BiasLayer<CAP> {
    open spec fn param(&self) -> Tensor<i64, 4, CAP> {
        self.bias()
    }

    open spec fn inv(&self) -> bool {
        self.wf()
    }

    open spec fn inference_pre(&self, input: NodeLayer<i64, CAP>, output: NodeLayer<i64, CAP>) -> bool {
        &&& input.wf()
        &&& output.wf()
        &&& self.io_shapes_ok(input, output)
        &&& forall|k: int|
            0 <= k < input@.len() ==> in_i64(
                input@[k] + self.bias()@[k % (self.bias()@.len() as int)],
            )
    }

    open spec fn inference_post(
        &self,
        input: NodeLayer<i64, CAP>,
        old_output: NodeLayer<i64, CAP>,
        new_output: NodeLayer<i64, CAP>,
    ) -> bool {
        &&& new_output.wf()
        &&& new_output.dims() == old_output.dims()
        &&& new_output@.len() == input@.len()
        &&& forall|k: int|
            0 <= k < input@.len() ==> new_output@[k] == input@[k] + self.bias()@[k % (
            self.bias()@.len() as int)]
    }

    open spec fn backprop_pre(
        &self,
        output_delta: Tensor<i64, 5, CAP>,
        input_delta: Tensor<i64, 5, CAP>,
        grad: Tensor<i64, 4, CAP>,
    ) -> bool {
        &&& output_delta.wf()
        &&& input_delta.wf()
        &&& grad.wf()
        &&& self.bias().dims()[0] == 1
        &&& grad.dims() == self.bias().dims()
        &&& input_delta.dims() == output_delta.dims()
        &&& output_delta.dims()[1] == self.bias().dims()[1]
        &&& output_delta.dims()[2] == self.bias().dims()[2]
        &&& output_delta.dims()[3] == self.bias().dims()[3]
        &&& output_delta.dims()[4] == 1
        &&& forall|j: int, b: int|
            0 <= j < grad@.len() && 0 <= b <= output_delta.dims()[0] ==> in_i64(
                grad@[j] + batch_sum(output_delta@, grad@.len() as int, j, b),
            )
    }

    open spec fn backprop_post(
        &self,
        output_delta: Tensor<i64, 5, CAP>,
        new_input_delta: Tensor<i64, 5, CAP>,
        old_grad: Tensor<i64, 4, CAP>,
        new_grad: Tensor<i64, 4, CAP>,
    ) -> bool {
        &&& new_input_delta.wf()
        &&& new_input_delta.dims() == output_delta.dims()
        &&& new_input_delta@ == output_delta@
        &&& new_grad.wf()
        &&& new_grad.dims() == old_grad.dims()
        &&& new_grad@.len() == old_grad@.len()
        &&& forall|j: int|
            0 <= j < old_grad@.len() ==> new_grad@[j] == old_grad@[j] + batch_sum(
                output_delta@,
                old_grad@.len() as int,
                j,
                output_delta.dims()[0] as int,
            )
    }

    open spec fn grad_descent_pre(&self, grad: Tensor<i64, 4, CAP>) -> bool {
        &&& grad.wf()
        &&& grad.dims() == self.bias().dims()
        &&& forall|k: int| 0 <= k < self.bias()@.len() ==> in_i64(self.bias()@[k] - grad@[k])
    }

    open spec fn grad_descent_post(
        old_self: Self,
        new_self: Self,
        grad: Tensor<i64, 4, CAP>,
    ) -> bool {
        &&& new_self.bias().dims() == old_self.bias().dims()
        &&& new_self.bias()@.len() == old_self.bias()@.len()
        &&& forall|k: int|
            0 <= k < new_self.bias()@.len() ==> new_self.bias()@[k] == old_self.bias()@[k]
                - grad@[k]
    }

    open spec fn momentum_pre(
        &self,
        grad: Tensor<i64, 4, CAP>,
        momentum: Tensor<i64, 4, CAP>,
        cfg: MomentumConfig,
    ) -> bool {
        &&& grad.wf()
        &&& momentum.wf()
        &&& cfg.wf()
        &&& grad.dims() == self.bias().dims()
        &&& momentum.dims() == self.bias().dims()
        &&& forall|k: int|
            0 <= k < self.bias()@.len() ==> momentum_fits(
                cfg,
                self.bias()@[k] as int,
                momentum@[k] as int,
                grad@[k] as int,
            )
    }

    open spec fn momentum_post(
        old_self: Self,
        new_self: Self,
        grad: Tensor<i64, 4, CAP>,
        old_momentum: Tensor<i64, 4, CAP>,
        new_momentum: Tensor<i64, 4, CAP>,
        cfg: MomentumConfig,
    ) -> bool {
        &&& new_self.bias().dims() == old_self.bias().dims()
        &&& new_momentum.wf()
        &&& new_momentum.dims() == old_momentum.dims()
        &&& new_momentum@.len() == old_momentum@.len()
        &&& forall|k: int|
            0 <= k < old_self.bias()@.len() ==> new_momentum@[k] as int == momentum_step(
                cfg,
                old_momentum@[k] as int,
                grad@[k] as int,
            )
        &&& forall|k: int|
            0 <= k < old_self.bias()@.len() ==> new_self.bias()@[k] as int == momentum_param_step(
                cfg,
                old_self.bias()@[k] as int,
                momentum_step(cfg, old_momentum@[k] as int, grad@[k] as int),
            )
    }

    open spec fn adam_pre(
        &self,
        grad: Tensor<i64, 4, CAP>,
        momentum: Tensor<i64, 4, CAP>,
        velocity: Tensor<i64, 4, CAP>,
        cfg: AdamConfig,
    ) -> bool {
        &&& grad.wf()
        &&& momentum.wf()
        &&& velocity.wf()
        &&& cfg.wf()
        &&& grad.dims() == self.bias().dims()
        &&& momentum.dims() == self.bias().dims()
        &&& velocity.dims() == self.bias().dims()
        &&& forall|k: int| 0 <= k < self.bias()@.len() ==> velocity@[k] >= 0
        &&& forall|k: int|
            0 <= k < self.bias()@.len() ==> adam_fits(
                cfg,
                self.bias()@[k] as int,
                momentum@[k] as int,
                velocity@[k] as int,
                grad@[k] as int,
            )
    }

    open spec fn adam_post(
        old_self: Self,
        new_self: Self,
        grad: Tensor<i64, 4, CAP>,
        old_momentum: Tensor<i64, 4, CAP>,
        new_momentum: Tensor<i64, 4, CAP>,
        old_velocity: Tensor<i64, 4, CAP>,
        new_velocity: Tensor<i64, 4, CAP>,
        cfg: AdamConfig,
    ) -> bool {
        &&& new_self.bias().dims() == old_self.bias().dims()
        &&& new_momentum.wf()
        &&& new_momentum.dims() == old_momentum.dims()
        &&& new_velocity.wf()
        &&& new_velocity.dims() == old_velocity.dims()
        &&& forall|k: int|
            0 <= k < old_self.bias()@.len() ==> new_momentum@[k] as int == adam_m_step(
                cfg,
                old_momentum@[k] as int,
                grad@[k] as int,
            )
        &&& forall|k: int|
            0 <= k < old_self.bias()@.len() ==> new_velocity@[k] as int == adam_v_step(
                cfg,
                old_velocity@[k] as int,
                grad@[k] as int,
            )
        &&& forall|k: int|
            0 <= k < old_self.bias()@.len() ==> new_self.bias()@[k] as int == adam_param_step(
                cfg,
                old_self.bias()@[k] as int,
                adam_m_step(cfg, old_momentum@[k] as int, grad@[k] as int),
                adam_v_step(cfg, old_velocity@[k] as int, grad@[k] as int),
            )
    }

    fn new(shape: Shape<4>) -> (r: Self) {
        BiasLayer::<CAP>::new(shape)
    }

    fn take(shape: Shape<4>, storage: Storage<i64, CAP>) -> (r: Result<Self, Error>) {
        BiasLayer::<CAP>::take(shape, storage)
    }

    fn inference(&self, input: &NodeLayer<i64, CAP>, output: &mut NodeLayer<i64, CAP>) {
        BiasLayer::<CAP>::inference(self, input, output);
    }

    fn backprop(
        &self,
        output: &NodeLayer<i64, CAP>,
        input: &mut NodeLayer<i64, CAP>,
        output_delta: &Tensor<i64, 5, CAP>,
        input_delta: &mut Tensor<i64, 5, CAP>,
        grad: &mut Tensor<i64, 4, CAP>,
    ) {
        BiasLayer::<CAP>::backprop(self, output, input, output_delta, input_delta, grad);
    }

    fn grad_descent(&mut self, grad: &Tensor<i64, 4, CAP>) {
        BiasLayer::<CAP>::grad_descent(self, grad);
    }

    fn grad_descent_momentum(
        &mut self,
        grad: &Tensor<i64, 4, CAP>,
        momentum: &mut Tensor<i64, 4, CAP>,
        cfg: &MomentumConfig,
    ) {
        BiasLayer::<CAP>::grad_descent_momentum(self, grad, momentum, cfg);
    }

    fn grad_descent_adam(
        &mut self,
        grad: &Tensor<i64, 4, CAP>,
        momentum: &mut Tensor<i64, 4, CAP>,
        velocity: &mut Tensor<i64, 4, CAP>,
        cfg: &AdamConfig,
    ) {
        BiasLayer::<CAP>::grad_descent_adam(self, grad, momentum, velocity, cfg);
    }
}

} // verus!
