//! Shape-indexed tensors over flat storage.
//!
//! A `Tensor<T, N, CAP>` pairs a `Shape<N>` with a `Storage<T, CAP>` and
//! keeps the invariant that the storage length equals the shape's element
//! count.  Multi-index access is translated to a linear offset with
//! row-major strides: the last dimension varies fastest.

use vstd::prelude::*;
use crate::error::Error;
use crate::shape::{Shape, dim_product, all_positive};
use crate::shape::{lemma_dim_product_take_step, lemma_dim_product_take_le};
use crate::storage::Storage;

verus! {

/// `idx` is a multi-index within bounds of `dims`: same rank, and every
/// coordinate below its dimension size.
pub open spec fn valid_index(idx: Seq<usize>, dims: Seq<usize>) -> bool {
    idx.len() == dims.len() && forall|k: int| 0 <= k < idx.len() ==> idx[k] < dims[k]
}

/// The row-major linear offset of multi-index `idx` within `dims`: the
/// last dimension varies fastest.
pub open spec fn offset_of(idx: Seq<usize>, dims: Seq<usize>) -> int
    decreases idx.len(),
{
    if idx.len() == 0 {
        0
    } else {
        offset_of(idx.drop_last(), dims.drop_last()) * (dims.last() as int) + idx.last()
    }
}

/// A valid multi-index maps to an offset inside the buffer.
pub proof fn lemma_offset_in_bounds(idx: Seq<usize>, dims: Seq<usize>)
    requires
        valid_index(idx, dims),
    ensures
        0 <= offset_of(idx, dims) < dim_product(dims),
    decreases idx.len(),
{
    if idx.len() > 0 {
        assert(valid_index(idx.drop_last(), dims.drop_last()));
        lemma_offset_in_bounds(idx.drop_last(), dims.drop_last());
        let head = offset_of(idx.drop_last(), dims.drop_last());
        let hp = dim_product(dims.drop_last());
        let d = dims.last() as int;
        let i = idx.last() as int;
        assert(i < d);
        assert(0 <= head * d + i < hp * d) by (nonlinear_arith)
            requires
                0 <= head,
                head < hp,
                0 <= i < d,
        ;
    }
}

/// Extending a multi-index by one coordinate follows the row-major
/// recurrence.
pub proof fn lemma_offset_take_step(idx: Seq<usize>, dims: Seq<usize>, k: int)
    requires
        0 <= k < idx.len(),
        idx.len() <= dims.len(),
    ensures
        offset_of(idx.take(k + 1), dims.take(k + 1)) == offset_of(idx.take(k), dims.take(k)) * (
        dims[k] as int) + idx[k],
{
    assert(idx.take(k + 1).drop_last() =~= idx.take(k));
    assert(dims.take(k + 1).drop_last() =~= dims.take(k));
    assert(idx.take(k + 1).last() == idx[k]);
    assert(dims.take(k + 1).last() == dims[k]);
}

/// The multi-index whose row-major offset within `dims` is `k`: each
/// coordinate is recovered by dividing out the trailing dimensions.
pub open spec fn index_of_flat(k: int, dims: Seq<usize>) -> Seq<usize>
    decreases dims.len(),
{
    if dims.len() == 0 {
        Seq::empty()
    } else {
        index_of_flat(k / (dims.last() as int), dims.drop_last()).push(
            (k % (dims.last() as int)) as usize,
        )
    }
}

/// Every buffer position below the element count is the offset of exactly
/// the multi-index `index_of_flat` recovers, so indexed reads reach every
/// element of the storage a tensor adopted.
pub proof fn lemma_index_of_flat(k: int, dims: Seq<usize>)
    requires
        all_positive(dims),
        0 <= k < dim_product(dims),
    ensures
        valid_index(index_of_flat(k, dims), dims),
        offset_of(index_of_flat(k, dims), dims) == k,
    decreases dims.len(),
{
    if dims.len() == 0 {
        assert(index_of_flat(k, dims) =~= Seq::<usize>::empty());
    } else {
        let d = dims.last() as int;
        let rest = dims.drop_last();
        assert(all_positive(rest));
        vstd::arithmetic::div_mod::lemma_fundamental_div_mod(k, d);
        vstd::arithmetic::div_mod::lemma_mod_bound(k, d);
        vstd::arithmetic::div_mod::lemma_div_pos_is_pos(k, d);
        vstd::arithmetic::div_mod::lemma_multiply_divide_lt(k, d, dim_product(rest));
        assert(d * dim_product(rest) == dim_product(rest) * d) by (nonlinear_arith);
        lemma_index_of_flat(k / d, rest);
        let idx = index_of_flat(k, dims);
        assert(idx.drop_last() =~= index_of_flat(k / d, rest));
        assert(idx.last() == (k % d) as usize);
        assert(offset_of(idx, dims) == (k / d) * d + k % d);
        assert((k / d) * d == d * (k / d)) by (nonlinear_arith);
    }
}

/// A shape together with a storage whose length is exactly the shape's
/// element count.
#[derive(Debug)]
pub struct Tensor<T, const N: usize, const CAP: usize> {
    shape: Shape<N>,
    storage: Storage<T, CAP>,
}

impl<T, const N: usize, const CAP: usize> View for Tensor<T, N, CAP> {
    type V = Seq<T>;

    closed spec fn view(&self) -> Seq<T> {
        self.storage@
    }
}

impl<T, const N: usize, const CAP: usize> Tensor<T, N, CAP> {
    /// The dimension sizes of this tensor.
    pub closed spec fn dims(&self) -> Seq<usize> {
        self.shape@
    }

    /// The shape and the storage are well formed and the storage length
    /// equals the shape's element count.
    pub closed spec fn wf(&self) -> bool {
        self.shape.wf() && self.storage.wf() && self.storage@.len() == dim_product(self.shape@)
    }

    /// What well-formedness guarantees to callers.
    pub proof fn lemma_wf_facts(&self)
        requires
            self.wf(),
        ensures
            self@.len() == dim_product(self.dims()),
            all_positive(self.dims()),
            dim_product(self.dims()) <= usize::MAX,
            self.dims().len() == N,
    {
        self.shape.lemma_wf_facts();
    }

    /// The shape of this tensor.
    pub fn shape(&self) -> (r: &Shape<N>)
        ensures
            r@ == self.dims(),
            r.wf() == self.shape_wf(),
    {
        &self.shape
    }

    pub closed spec fn shape_wf(&self) -> bool {
        self.shape.wf()
    }

    /// The number of elements the tensor holds.
    pub fn element_count(&self) -> (r: usize)
        requires
            self.wf(),
        ensures
            r == dim_product(self.dims()),
            r == self@.len(),
    {
        self.shape.element_count()
    }

    /// Translates a multi-index to its row-major linear offset.
    pub fn linear_index(&self, idx: &[usize; N]) -> (r: usize)
        requires
            self.wf(),
            valid_index(idx@, self.dims()),
        ensures
            r == offset_of(idx@, self.dims()),
            r < self@.len(),
    {
        proof {
            self.lemma_wf_facts();
        }
        let ghost dims: Seq<usize> = self.dims();
        let mut off: usize = 0;
        let mut k: usize = 0;
        while k < N
            invariant
                0 <= k <= N,
                self.wf(),
                dims == self.dims(),
                valid_index(idx@, dims),
                all_positive(dims),
                dims.len() == N,
                dim_product(dims) <= usize::MAX,
                off == offset_of(idx@.take(k as int), dims.take(k as int)),
                off < dim_product(dims.take(k as int)),
            decreases N - k,
        {
            proof {
                lemma_offset_take_step(idx@, dims, k as int);
                lemma_dim_product_take_step(dims, k as int);
                lemma_dim_product_take_le(dims, k as int + 1);
                assert(valid_index(idx@.take(k as int + 1), dims.take(k as int + 1)));
                lemma_offset_in_bounds(idx@.take(k as int + 1), dims.take(k as int + 1));
            }
            off = off * self.shape.dim(k) + idx[k];
            k = k + 1;
        }
        proof {
            assert(idx@.take(N as int) =~= idx@);
            assert(dims.take(N as int) =~= dims);
            lemma_offset_in_bounds(idx@, dims);
        }
        off
    }

    /// Reads the element at linear offset `i`.
    pub fn get_linear(&self, i: usize) -> (r: T)
        where T: Copy,
        requires
            i < self@.len(),
        ensures
            r == self@[i as int],
    {
        self.storage.get(i)
    }

    /// Overwrites the element at linear offset `i`.
    pub fn set_linear(&mut self, i: usize, value: T)
        requires
            i < old(self)@.len(),
        ensures
            final(self)@ == old(self)@.update(i as int, value),
            final(self).dims() == old(self).dims(),
            final(self).wf() == old(self).wf(),
    {
        self.storage.set(i, value);
    }

    /// Reads the element at multi-index `idx`.
    pub fn get(&self, idx: &[usize; N]) -> (r: T)
        where T: Copy,
        requires
            self.wf(),
            valid_index(idx@, self.dims()),
        ensures
            r == self@[offset_of(idx@, self.dims())],
    {
        let i = self.linear_index(idx);
        self.storage.get(i)
    }

    /// Overwrites the element at multi-index `idx`.
    pub fn set(&mut self, idx: &[usize; N], value: T)
        where T: Copy,
        requires
            old(self).wf(),
            valid_index(idx@, old(self).dims()),
        ensures
            final(self)@ == old(self)@.update(offset_of(idx@, old(self).dims()), value),
            final(self).dims() == old(self).dims(),
            final(self).wf(),
    {
        let i = self.linear_index(idx);
        self.storage.set(i, value);
    }
}

impl<T: Copy, const N: usize, const CAP: usize> Clone for Tensor<T, N, CAP> {
    fn clone(&self) -> (r: Self)
        ensures
            r@ == self@,
            r.dims() == self.dims(),
            r.wf() == self.wf(),
    {
        Tensor { shape: self.shape.clone(), storage: self.storage.clone() }
    }
}

impl<T: Copy, const N: usize, const CAP: usize> Tensor<T, N, CAP> {
    /// A tensor over fresh owned storage, every element set to `fill`.
    pub fn new(shape: Shape<N>, fill: T) -> (r: Self)
        requires
            shape.wf(),
        ensures
            r.wf(),
            r.dims() == shape@,
            r@.len() == dim_product(shape@),
            forall|i: int| 0 <= i < r@.len() ==> r@[i] == fill,
    {
        let count = shape.element_count();
        let storage = Storage::<T, CAP>::fresh_owned(count, fill);
        Tensor { shape, storage }
    }

    /// A tensor over fresh inline storage, every element set to `fill`.
    /// Fails when the element count exceeds the capacity bound.
    pub fn new_inline(shape: Shape<N>, fill: T) -> (r: Result<Self, Error>)
        requires
            shape.wf(),
        ensures
            dim_product(shape@) > CAP ==> r == Result::<Self, Error>::Err(Error::CapacityExceeded),
            dim_product(shape@) <= CAP ==> (r matches Ok(t)
                && t.wf()
                && t.dims() == shape@
                && t@.len() == dim_product(shape@)
                && (forall|i: int| 0 <= i < t@.len() ==> t@[i] == fill)),
    {
        let count = shape.element_count();
        match Storage::<T, CAP>::fresh_inline(count, fill) {
            Ok(storage) => Ok(Tensor { shape, storage }),
            Err(e) => Err(e),
        }
    }

    /// A tensor adopting the given storage without copying it.  Fails when
    /// the storage length does not equal the shape's element count; the
    /// adopted elements are handed over unchanged.
    pub fn take(shape: Shape<N>, storage: Storage<T, CAP>) -> (r: Result<Self, Error>)
        requires
            shape.wf(),
            storage.wf(),
        ensures
            storage@.len() != dim_product(shape@) ==> r == Result::<Self, Error>::Err(
                Error::ShapeStorageMismatch,
            ),
            storage@.len() == dim_product(shape@) ==> (r matches Ok(t)
                && t.wf()
                && t.dims() == shape@
                && t@ == storage@),
    {
        let count = shape.element_count();
        if storage.len() != count {
            Err(Error::ShapeStorageMismatch)
        } else {
            Ok(Tensor { shape, storage })
        }
    }
}

/// Round trip of adoption and indexed access: a tensor whose buffer is the
/// adopted storage (as `take` ensures) hands every element of that storage
/// back unchanged through a multi-index read, since each buffer position
/// is the offset of a valid multi-index and `get` returns the element at
/// that offset.
pub proof fn lemma_take_read_back<T, const N: usize, const CAP: usize>(
    t: Tensor<T, N, CAP>,
    buf: Seq<T>,
)
    requires
        t.wf(),
        t@ == buf,
    ensures
        forall|k: int|
            0 <= k < buf.len() ==> valid_index(#[trigger] index_of_flat(k, t.dims()), t.dims())
                && offset_of(index_of_flat(k, t.dims()), t.dims()) == k && buf[k] == t@[offset_of(
                index_of_flat(k, t.dims()),
                t.dims(),
            )],
{
    t.lemma_wf_facts();
    assert forall|k: int| 0 <= k < buf.len() implies valid_index(
        #[trigger] index_of_flat(k, t.dims()),
        t.dims(),
    ) && offset_of(index_of_flat(k, t.dims()), t.dims()) == k && buf[k] == t@[offset_of(
        index_of_flat(k, t.dims()),
        t.dims(),
    )] by {
        lemma_index_of_flat(k, t.dims());
    }
}

} // verus!
