//! Ownership of contiguous element buffers.
//!
//! A `Storage<T, CAP>` owns a flat buffer of elements.  The *inline*
//! variant is bounded by the capacity `CAP` fixed at definition time; the
//! *owned* variant is sized freely at construction.  Both variants share
//! one indexing implementation, and a storage never changes its length
//! after construction.

use vstd::prelude::*;
use crate::error::Error;

verus! {

/// A contiguous buffer of elements, either bounded by a fixed capacity or
/// dynamically sized at construction.
#[derive(Debug)]
pub enum Storage<T, const CAP: usize> {
    /// A buffer bounded by the compile-time capacity `CAP`.
    Inline(Vec<T>),
    /// A buffer sized exactly at construction, with no capacity bound.
    Owned(Vec<T>),
}

impl<T, const CAP: usize> View for Storage<T, CAP> {
    type V = Seq<T>;

    open spec fn view(&self) -> Seq<T> {
        match self {
            Storage::Inline(buf) => buf@,
            Storage::Owned(buf) => buf@,
        }
    }
}

impl<T, const CAP: usize> Storage<T, CAP> {
    /// An inline buffer never holds more elements than its capacity bound.
    pub open spec fn wf(&self) -> bool {
        match self {
            Storage::Inline(buf) => buf@.len() <= CAP,
            Storage::Owned(_) => true,
        }
    }

    pub open spec fn is_inline(&self) -> bool {
        match self {
            Storage::Inline(_) => true,
            Storage::Owned(_) => false,
        }
    }

    /// The number of elements the storage holds.
    pub fn len(&self) -> (r: usize)
        ensures
            r == self@.len(),
    {
        match self {
            Storage::Inline(buf) => buf.len(),
            Storage::Owned(buf) => buf.len(),
        }
    }

    /// Reads the element at linear index `i`.
    pub fn get(&self, i: usize) -> (r: T)
        where T: Copy,
        requires
            i < self@.len(),
        ensures
            r == self@[i as int],
    {
        match self {
            Storage::Inline(buf) => buf[i],
            Storage::Owned(buf) => buf[i],
        }
    }

    /// Overwrites the element at linear index `i`.
    pub fn set(&mut self, i: usize, value: T)
        requires
            i < old(self)@.len(),
        ensures
            final(self)@ == old(self)@.update(i as int, value),
            final(self).wf() == old(self).wf(),
            final(self).is_inline() == old(self).is_inline(),
    {
        match self {
            Storage::Inline(buf) => {
                buf[i] = value;
            },
            Storage::Owned(buf) => {
                buf[i] = value;
            },
        }
    }
}

/// An element-for-element copy of `v`.
fn copied_vec<T: Copy>(v: &Vec<T>) -> (r: Vec<T>)
    ensures
        r@ == v@,
{
    let mut out: Vec<T> = Vec::new();
    let mut k: usize = 0;
    while k < v.len()
        invariant
            0 <= k <= v@.len(),
            out@.len() == k,
            forall|i: int| 0 <= i < k ==> out@[i] == v@[i],
        decreases v@.len() - k,
    {
        out.push(v[k]);
        k = k + 1;
    }
    proof {
        assert(out@ =~= v@);
    }
    out
}

impl<T: Copy, const CAP: usize> Clone for Storage<T, CAP> {
    fn clone(&self) -> (r: Self)
        ensures
            r@ == self@,
            r.wf() == self.wf(),
            r.is_inline() == self.is_inline(),
    {
        match self {
            Storage::Inline(buf) => Storage::Inline(copied_vec(buf)),
            Storage::Owned(buf) => Storage::Owned(copied_vec(buf)),
        }
    }
}

/// A vector of `count` copies of `fill`.
fn filled_vec<T: Copy>(count: usize, fill: T) -> (r: Vec<T>)
    ensures
        r@.len() == count,
        forall|i: int| 0 <= i < count ==> r@[i] == fill,
{
    let mut buf: Vec<T> = Vec::new();
    let mut k: usize = 0;
    while k < count
        invariant
            0 <= k <= count,
            buf@.len() == k,
            forall|i: int| 0 <= i < k ==> buf@[i] == fill,
        decreases count - k,
    {
        buf.push(fill);
        k = k + 1;
    }
    buf
}

impl<T: Copy, const CAP: usize> Storage<T, CAP> {
    /// A fresh inline buffer of `count` elements, each set to `fill`.
    /// Fails when `count` exceeds the capacity bound.
    pub fn fresh_inline(count: usize, fill: T) -> (r: Result<Self, Error>)
        ensures
            count > CAP ==> r == Result::<Self, Error>::Err(Error::CapacityExceeded),
            count <= CAP ==> (r matches Ok(s)
                && s@.len() == count
                && (forall|i: int| 0 <= i < count ==> s@[i] == fill)
                && s.wf()
                && s.is_inline()),
    {
        if count > CAP {
            Err(Error::CapacityExceeded)
        } else {
            Ok(Storage::Inline(filled_vec(count, fill)))
        }
    }

    /// A fresh owned buffer of `count` elements, each set to `fill`.
    pub fn fresh_owned(count: usize, fill: T) -> (r: Self)
        ensures
            r@.len() == count,
            forall|i: int| 0 <= i < count ==> r@[i] == fill,
            r.wf(),
            !r.is_inline(),
    {
        Storage::Owned(filled_vec(count, fill))
    }

    /// Adopts `buf` as an inline buffer without copying it.  Fails when the
    /// buffer's length is not the requested `count`, or when `count`
    /// exceeds the capacity bound.
    pub fn adopt_inline(count: usize, buf: Vec<T>) -> (r: Result<Self, Error>)
        ensures
            buf@.len() != count ==> r == Result::<Self, Error>::Err(Error::ShapeStorageMismatch),
            buf@.len() == count && count > CAP ==> r == Result::<Self, Error>::Err(
                Error::CapacityExceeded,
            ),
            buf@.len() == count && count <= CAP ==> (r matches Ok(s)
                && s@ == buf@ && s.wf() && s.is_inline()),
    {
        if buf.len() != count {
            Err(Error::ShapeStorageMismatch)
        } else if count > CAP {
            Err(Error::CapacityExceeded)
        } else {
            Ok(Storage::Inline(buf))
        }
    }

    /// Adopts `buf` as an owned buffer without copying it.  Fails when the
    /// buffer's length is not the requested `count`.
    pub fn adopt_owned(count: usize, buf: Vec<T>) -> (r: Result<Self, Error>)
        ensures
            buf@.len() != count ==> r == Result::<Self, Error>::Err(Error::ShapeStorageMismatch),
            buf@.len() == count ==> (r matches Ok(s)
                && s@ == buf@ && s.wf() && !s.is_inline()),
    {
        if buf.len() != count {
            Err(Error::ShapeStorageMismatch)
        } else {
            Ok(Storage::Owned(buf))
        }
    }
}

} // verus!
