//! A value that is prepared exactly once and read-only afterwards.

use vstd::prelude::*;

verus! {

/// A lazily initialised value: empty when made, filled by one call of
/// [`LazyStatic::prep`], and never emptied again.
pub struct LazyStatic<T>(pub Option<T>);

impl<T> LazyStatic<T> {
    /// Whether the value has been prepared.
    pub open spec fn is_prepared(&self) -> bool {
        self.0 is Some
    }

    /// The prepared value.
    pub open spec fn value(&self) -> T
        recommends
            self.is_prepared(),
    {
        self.0->0
    }

    /// Creates the empty cell.
    pub fn new() -> (cell: LazyStatic<T>)
        ensures
            !cell.is_prepared(),
    {
        LazyStatic(None)
    }

    /// Prepares the value with what `fcn` returns. The cell must still be
    /// empty: preparing twice is a programming error.
    pub fn prep<Fcn: FnOnce() -> T>(&mut self, fcn: Fcn)
        requires
            !old(self).is_prepared(),
            call_requires(fcn, ()),
        ensures
            final(self).is_prepared(),
            call_ensures(fcn, (), final(self).value()),
    {
        self.0 = Some(fcn());
    }

    /// Mutable access to the prepared value.
    pub fn ls_unsafe_mut(&mut self) -> (value: &mut T)
        requires
            old(self).is_prepared(),
        ensures
            *value == old(self).value(),
            final(self).is_prepared(),
            final(self).value() == *final(value),
    {
        self.0.as_mut().unwrap()
    }

    /// Shared access to the prepared value.
    pub fn deref(&self) -> (value: &T)
        requires
            self.is_prepared(),
        ensures
            *value == self.value(),
    {
        self.0.as_ref().unwrap()
    }
}

} // verus!
