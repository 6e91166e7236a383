//! Rank-4 activation tensors and rank-specific index arithmetic.
//!
//! A `NodeLayer` carries the activations flowing between layers, laid out
//! batch x channel x height x width.  Backward passes use rank-5 delta
//! tensors with one trailing component dimension.  The spec functions here
//! read single elements of such tensors by coordinates, following the
//! row-major offset rule of [`crate::tensor`].

use vstd::prelude::*;
use crate::shape::dim_product;
use crate::tensor::Tensor;

verus! {

/// A rank-4 tensor of activations: batch x channel x height x width.
pub type NodeLayer<T, const CAP: usize> = Tensor<T, 4, CAP>;

/// The row-major offset of coordinates `(b, c, h, w)` in a rank-4 tensor
/// whose last three dimensions are `cs`, `hs`, `ws`.
pub open spec fn flat4(b: int, c: int, h: int, w: int, cs: int, hs: int, ws: int) -> int {
    ((b * cs + c) * hs + h) * ws + w
}

/// The row-major offset of coordinates `(b, c, h, w, v)` in a rank-5
/// tensor whose last four dimensions are `cs`, `hs`, `ws`, `vs`.
pub open spec fn flat5(
    b: int,
    c: int,
    h: int,
    w: int,
    v: int,
    cs: int,
    hs: int,
    ws: int,
    vs: int,
) -> int {
    (((b * cs + c) * hs + h) * ws + w) * vs + v
}

/// The element of a rank-4 tensor at coordinates `(b, c, h, w)`.
pub open spec fn at4<T, const CAP: usize>(t: Tensor<T, 4, CAP>, b: int, c: int, h: int, w: int) -> T {
    t@[flat4(b, c, h, w, t.dims()[1] as int, t.dims()[2] as int, t.dims()[3] as int)]
}

/// The element of a rank-5 tensor at coordinates `(b, c, h, w, v)`.
pub open spec fn at5<T, const CAP: usize>(
    t: Tensor<T, 5, CAP>,
    b: int,
    c: int,
    h: int,
    w: int,
    v: int,
) -> T {
    t@[flat5(
        b,
        c,
        h,
        w,
        v,
        t.dims()[1] as int,
        t.dims()[2] as int,
        t.dims()[3] as int,
        t.dims()[4] as int,
    )]
}

/// The element count of a rank-4 shape is the plain product of its four
/// dimensions.
pub proof fn lemma_dim_product_rank4(dims: Seq<usize>)
    requires
        dims.len() == 4,
    ensures
        dim_product(dims) == ((dims[0] as int) * (dims[1] as int) * (dims[2] as int)) * (
        dims[3] as int),
{
    let s3 = dims.drop_last();
    let s2 = s3.drop_last();
    let s1 = s2.drop_last();
    let s0 = s1.drop_last();
    assert(s0.len() == 0);
    assert(dim_product(dims) == dim_product(s3) * (dims[3] as int));
    assert(dim_product(s3) == dim_product(s2) * (dims[2] as int));
    assert(dim_product(s2) == dim_product(s1) * (dims[1] as int));
    assert(dim_product(s1) == dim_product(s0) * (dims[0] as int));
    assert(dim_product(s0) == 1);
    assert(((1 * (dims[0] as int) * (dims[1] as int)) * (dims[2] as int)) * (dims[3] as int) == ((
    dims[0] as int) * (dims[1] as int) * (dims[2] as int)) * (dims[3] as int)) by (nonlinear_arith);
}

/// The element count of a rank-5 shape is the plain product of its five
/// dimensions.
pub proof fn lemma_dim_product_rank5(dims: Seq<usize>)
    requires
        dims.len() == 5,
    ensures
        dim_product(dims) == (((dims[0] as int) * (dims[1] as int) * (dims[2] as int)) * (
        dims[3] as int)) * (dims[4] as int),
{
    let s4 = dims.drop_last();
    assert(s4.len() == 4);
    assert(dim_product(dims) == dim_product(s4) * (dims[4] as int));
    lemma_dim_product_rank4(s4);
    assert(s4[0] == dims[0] && s4[1] == dims[1] && s4[2] == dims[2] && s4[3] == dims[3]);
}

/// How a rank-4 offset splits into a batch part and a within-batch part:
/// the offset of `(b, c, h, w)` is `b` whole batches of `cs * hs * ws`
/// elements plus the offset of `(0, c, h, w)`, which lies inside one
/// batch.
pub proof fn lemma_flat4_split(b: int, c: int, h: int, w: int, cs: int, hs: int, ws: int)
    requires
        0 <= c < cs,
        0 <= h < hs,
        0 <= w < ws,
        0 <= b,
    ensures
        flat4(b, c, h, w, cs, hs, ws) == b * ((cs * hs) * ws) + flat4(0, c, h, w, cs, hs, ws),
        0 <= flat4(0, c, h, w, cs, hs, ws) < (cs * hs) * ws,
        0 <= flat4(b, c, h, w, cs, hs, ws) < (b + 1) * ((cs * hs) * ws),
{
    assert(((b * cs + c) * hs + h) * ws + w == b * ((cs * hs) * ws) + ((c * hs + h) * ws + w))
        by (nonlinear_arith);
    assert(0 <= (c * hs + h) * ws + w < (cs * hs) * ws) by (nonlinear_arith)
        requires
            0 <= c < cs,
            0 <= h < hs,
            0 <= w < ws,
    ;
    assert(b * ((cs * hs) * ws) + ((cs * hs) * ws) == (b + 1) * ((cs * hs) * ws))
        by (nonlinear_arith);
    assert(0 <= b * ((cs * hs) * ws)) by (nonlinear_arith)
        requires
            0 <= b,
            0 <= (cs * hs) * ws,
    ;
}

/// A whole number of batches below `bs` plus a within-batch offset stays
/// below `bs` batches, and reducing modulo the batch size recovers the
/// within-batch offset.
pub proof fn lemma_batch_offset(b: int, j: int, bs: int, chw: int)
    requires
        0 <= b < bs,
        0 <= j < chw,
    ensures
        0 <= b * chw + j < bs * chw,
        (b * chw + j) % chw == j,
{
    assert(0 <= b * chw + j < bs * chw) by (nonlinear_arith)
        requires
            0 <= b < bs,
            0 <= j < chw,
    ;
    vstd::arithmetic::div_mod::lemma_mod_multiples_vanish(b, j, chw);
    vstd::arithmetic::div_mod::lemma_small_mod(j as nat, chw as nat);
}

} // verus!
