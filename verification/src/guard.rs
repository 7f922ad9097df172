//! A thin wrapper around the product of a pass registration.
//!
//! `PassBuilder::finish` hands the registered pass's reference back inside
//! a `Guard`, marking it as the output of one completed builder session.

use vstd::prelude::*;

verus! {

/// The product of one pass registration.
pub struct Guard<T>(T);

impl<T> Guard<T> {
    /// The wrapped value.
    pub closed spec fn inner(self) -> T {
        self.0
    }

    /// Wraps a value.
    pub fn new(t: T) -> (r: Guard<T>)
        ensures
            r.inner() == t,
    {
        Guard(t)
    }

    /// Borrows the wrapped value.
    pub fn as_ref(&self) -> (r: &T)
        ensures
            *r == self.inner(),
    {
        &self.0
    }

    /// Unwraps the value.
    pub fn into_inner(self) -> (r: T)
        ensures
            r == self.inner(),
    {
        self.0
    }

    /// Transforms the wrapped value.
    pub fn map<U, F: FnOnce(T) -> U>(self, f: F) -> (r: Guard<U>)
        requires
            call_requires(f, (self.inner(),)),
        ensures
            call_ensures(f, (self.inner(),), r.inner()),
    {
        Guard(f(self.0))
    }
}

} // verus!
