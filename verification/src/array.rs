//! Bookkeeping for a heap allocation that holds an array of `T`.
//!
//! An [`ArrayAlloc`] records where the array starts and how many elements
//! there is room for, and computes element addresses within those bounds.
//! Getting, growing and releasing the memory is the heap's part; the record
//! is told what the heap did.

use core::marker::PhantomData;
use vstd::layout::size_of;
use vstd::prelude::*;

verus! {

/// The record of an array allocation.
pub struct ArrayAlloc<T> {
    base: usize,
    size: usize,
    elements: PhantomData<T>,
}

/// How many elements an allocation for `size` elements of `elem_size` bytes
/// is recorded with: elements that take no room are never in short supply.
pub open spec fn recorded_count(size: usize, elem_size: nat) -> usize {
    if elem_size == 0 {
        usize::MAX
    } else {
        size
    }
}

impl<T> ArrayAlloc<T> {
    /// Address of the first element.
    pub closed spec fn base(&self) -> usize {
        self.base
    }

    /// Number of elements that the allocation has room for.
    pub closed spec fn len(&self) -> usize {
        self.size
    }

    /// The allocation lies inside the address space.
    pub open spec fn wf(&self) -> bool {
        self.base() + self.len() * size_of::<T>() <= usize::MAX
    }

    /// Number of bytes that `cap` elements take.
    pub fn get_alloc_size(cap: usize) -> (bytes: usize)
        requires
            cap * size_of::<T>() <= usize::MAX,
        ensures
            bytes == cap * size_of::<T>(),
    {
        cap * core::mem::size_of::<T>()
    }

    /// Records a fresh allocation for `size` elements at `base`, which the
    /// heap has made with room for `get_alloc_size(size)` bytes.
    pub fn new(base: usize, size: usize) -> (array: ArrayAlloc<T>)
        requires
            base + size * size_of::<T>() <= usize::MAX,
        ensures
            array.wf(),
            array.base() == base,
            array.len() == recorded_count(size, size_of::<T>()),
    {
        if core::mem::size_of::<T>() == 0 {
            ArrayAlloc { base, size: usize::MAX, elements: PhantomData }
        } else {
            ArrayAlloc { base, size, elements: PhantomData }
        }
    }

    /// Records an allocation of `size` elements at `base` as it is.
    pub fn from_raw_parts(base: usize, size: usize) -> (array: ArrayAlloc<T>)
        requires
            base + size * size_of::<T>() <= usize::MAX,
        ensures
            array.wf(),
            array.base() == base,
            array.len() == size,
    {
        ArrayAlloc { base, size, elements: PhantomData }
    }

    /// Records that the heap has resized the allocation in place to
    /// `newsize` elements.
    pub fn resize(&mut self, newsize: usize) -> (resized: bool)
        requires
            old(self).base() + newsize * size_of::<T>() <= usize::MAX,
        ensures
            resized,
            final(self).wf(),
            final(self).base() == old(self).base(),
            final(self).len() == newsize,
    {
        self.size = newsize;
        true
    }

    /// Number of elements that the allocation has room for.
    pub fn count(&self) -> (count: usize)
        ensures
            count == self.len(),
    {
        self.size
    }

    /// Address of the first element, for reading.
    pub fn get_base(&self) -> (base: usize)
        ensures
            base == self.base(),
    {
        self.base
    }

    /// Address of the first element, for writing.
    pub fn get_base_mut(&mut self) -> (base: usize)
        ensures
            base == old(self).base(),
            final(self).base() == old(self).base(),
            final(self).len() == old(self).len(),
    {
        self.base
    }

    /// Address of element `idx`, for reading.
    pub fn get_ptr(&self, idx: usize) -> (ptr: usize)
        requires
            self.wf(),
            idx < self.len(),
        ensures
            ptr == self.base() + idx * size_of::<T>(),
    {
        let elem = core::mem::size_of::<T>();
        assert(idx * elem <= self.size * elem) by (nonlinear_arith)
            requires
                idx < self.size,
        ;
        self.base + idx * elem
    }

    /// Address of element `idx`, for writing.
    pub fn get_ptr_mut(&mut self, idx: usize) -> (ptr: usize)
        requires
            old(self).wf(),
            idx < old(self).len(),
        ensures
            ptr == old(self).base() + idx * size_of::<T>(),
            final(self).base() == old(self).base(),
            final(self).len() == old(self).len(),
    {
        self.get_ptr(idx)
    }
}

} // verus!
