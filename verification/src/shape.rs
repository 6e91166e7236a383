//! Fixed-rank shape descriptors.
//!
//! A `Shape<N>` is an immutable list of `N` positive dimension sizes.  Its
//! element count is the product of all dimensions; it is computed once at
//! construction and carried alongside the dimensions.

use vstd::prelude::*;

verus! {

/// The product of a sequence of dimension sizes; the element count of a
/// buffer of that shape.  An empty sequence has product `1`.
pub open spec fn dim_product(dims: Seq<usize>) -> int
    decreases dims.len(),
{
    if dims.len() == 0 {
        1
    } else {
        dim_product(dims.drop_last()) * (dims.last() as int)
    }
}

/// Every entry of `dims` is positive.
pub open spec fn all_positive(dims: Seq<usize>) -> bool {
    forall|k: int| 0 <= k < dims.len() ==> dims[k] >= 1
}

pub proof fn lemma_dim_product_pos(dims: Seq<usize>)
    requires
        all_positive(dims),
    ensures
        dim_product(dims) >= 1,
    decreases dims.len(),
{
    if dims.len() > 0 {
        assert(all_positive(dims.drop_last()));
        lemma_dim_product_pos(dims.drop_last());
        assert(dims.last() >= 1);
        assert(dim_product(dims.drop_last()) * (dims.last() as int) >= 1) by (nonlinear_arith)
            requires
                dim_product(dims.drop_last()) >= 1,
                dims.last() >= 1,
        ;
    }
}

/// Taking one more dimension multiplies the prefix product by that dimension.
pub proof fn lemma_dim_product_take_step(dims: Seq<usize>, k: int)
    requires
        0 <= k < dims.len(),
    ensures
        dim_product(dims.take(k + 1)) == dim_product(dims.take(k)) * (dims[k] as int),
{
    assert(dims.take(k + 1).drop_last() =~= dims.take(k));
    assert(dims.take(k + 1).last() == dims[k]);
}

/// A prefix product never exceeds the full product when all dimensions are
/// positive.
pub proof fn lemma_dim_product_take_le(dims: Seq<usize>, k: int)
    requires
        all_positive(dims),
        0 <= k <= dims.len(),
    ensures
        dim_product(dims.take(k)) <= dim_product(dims),
    decreases dims.len() - k,
{
    if k == dims.len() {
        assert(dims.take(k) =~= dims);
    } else {
        lemma_dim_product_take_step(dims, k);
        assert(all_positive(dims.take(k)));
        lemma_dim_product_pos(dims.take(k));
        assert(dim_product(dims.take(k)) * (dims[k] as int) >= dim_product(dims.take(k)))
            by (nonlinear_arith)
            requires
                dim_product(dims.take(k)) >= 1,
                dims[k] >= 1,
        ;
        lemma_dim_product_take_le(dims, k + 1);
    }
}

/// An immutable descriptor of `N` positive dimension sizes.
#[derive(Debug)]
pub struct Shape<const N: usize> {
    dims: [usize; N],
    count: usize,
}

impl<const N: usize> View for Shape<N> {
    type V = Seq<usize>;

    closed spec fn view(&self) -> Seq<usize> {
        self.dims@
    }
}

impl<const N: usize> Clone for Shape<N> {
    fn clone(&self) -> (r: Self)
        ensures
            r@ == self@,
            r.wf() == self.wf(),
    {
        Shape { dims: self.dims, count: self.count }
    }
}

/// Shape equality compares all dimensions.
impl<const N: usize> PartialEq for Shape<N> {
    fn eq(&self, other: &Shape<N>) -> (r: bool) {
        self.same_dims(other)
    }
}

impl<const N: usize> vstd::std_specs::cmp::PartialEqSpecImpl for Shape<N> {
    open spec fn obeys_eq_spec() -> bool {
        true
    }

    open spec fn eq_spec(&self, other: &Shape<N>) -> bool {
        self@ == other@
    }
}

impl<const N: usize> Shape<N> {
    /// Every dimension is positive and the cached count is the product of
    /// the dimensions.
    pub closed spec fn wf(&self) -> bool {
        all_positive(self.dims@) && self.count == dim_product(self.dims@)
    }

    /// What well-formedness guarantees to callers: positive dimensions and
    /// an element count that fits in a machine word.
    pub proof fn lemma_wf_facts(&self)
        requires
            self.wf(),
        ensures
            all_positive(self@),
            dim_product(self@) <= usize::MAX,
            self@.len() == N,
    {
        vstd::array::array_len_matches_n(&self.dims);
    }

    /// Builds a shape from `N` positive dimension sizes.  The element count
    /// must fit in a machine word.
    pub fn new(dims: [usize; N]) -> (r: Self)
        requires
            all_positive(dims@),
            dim_product(dims@) <= usize::MAX,
        ensures
            r@ == dims@,
            r.wf(),
    {
        let mut count: usize = 1;
        let mut k: usize = 0;
        while k < N
            invariant
                0 <= k <= N,
                all_positive(dims@),
                dim_product(dims@) <= usize::MAX,
                count == dim_product(dims@.take(k as int)),
            decreases N - k,
        {
            proof {
                lemma_dim_product_take_step(dims@, k as int);
                lemma_dim_product_take_le(dims@, k as int + 1);
            }
            count = count * dims[k];
            k = k + 1;
        }
        proof {
            assert(dims@.take(N as int) =~= dims@);
        }
        Shape { dims, count }
    }

    /// The number of elements a buffer of this shape holds: the product of
    /// all dimensions.
    pub fn element_count(&self) -> (r: usize)
        requires
            self.wf(),
        ensures
            r == dim_product(self@),
    {
        self.count
    }

    /// The size of dimension `k`.
    pub fn dim(&self, k: usize) -> (r: usize)
        requires
            k < N,
        ensures
            r == self@[k as int],
    {
        self.dims[k]
    }

    /// Whether two shapes agree in every dimension.
    pub fn same_dims(&self, other: &Shape<N>) -> (r: bool)
        ensures
            r <==> self@ =~= other@,
    {
        let mut k: usize = 0;
        while k < N
            invariant
                0 <= k <= N,
                forall|j: int| 0 <= j < k ==> self.dims@[j] == other.dims@[j],
            decreases N - k,
        {
            if self.dims[k] != other.dims[k] {
                return false;
            }
            k = k + 1;
        }
        true
    }
}

} // verus!
