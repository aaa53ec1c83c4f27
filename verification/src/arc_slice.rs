//! A reference-counted, immutable sequence shared by all clones of a
//! `Message`.
//!
//! Cloning is O(1): it creates a new handle to the same heap allocation
//! and bumps an atomic count.  The allocation is freed exactly once, when
//! the last handle is dropped.  Because the contents are never mutated
//! after construction, handles may be cloned, read and dropped
//! concurrently from many threads.

use std::sync::Arc;
use vstd::prelude::*;

verus! {

/// An immutable sequence behind an atomic reference count.
pub struct ArcSlice<T> {
    data: Arc<Vec<T>>,
}

impl<T> View for ArcSlice<T> {
    type V = Seq<T>;

    closed spec fn view(&self) -> Seq<T> {
        self.data@
    }
}

impl<T> ArcSlice<T> {
    /// Wraps an owned vector into a shared immutable sequence, with this
    /// handle as its only owner.
    pub fn new(data: Vec<T>) -> (r: ArcSlice<T>)
        ensures
            r@ == data@,
    {
        ArcSlice { data: Arc::new(data) }
    }

    /// Relies on `Arc::deref`: every handle reads the one shared vector.
    #[verifier::external_body]
    pub fn as_slice(&self) -> (r: &[T])
        ensures
            r@ == self@,
    {
        self.data.as_slice()
    }

    pub fn len(&self) -> (r: usize)
        ensures
            r == self@.len(),
    {
        self.as_slice().len()
    }
}

impl<T> Clone for ArcSlice<T> {
    /// Relies on `Arc::clone`: the new handle shares the same allocation
    /// and reads the same contents; only the reference count changes.
    #[verifier::external_body]
    fn clone(&self) -> (r: Self)
        ensures
            r@ == self@,
    {
        ArcSlice { data: Arc::clone(&self.data) }
    }
}

} // verus!
