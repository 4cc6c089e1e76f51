//! A marker carried as a request extension.
use vstd::prelude::*;

verus! {

/// A value attached to a request as an extension.
#[derive(Debug, Clone)]
pub struct Extension<E>(pub E);

impl<E> Extension<E> {
    pub fn new(e: E) -> (r: Self)
        ensures
            r.0 == e,
    {
        Extension(e)
    }

    pub fn into_inner(self) -> (r: E)
        ensures
            r == self.0,
    {
        self.0
    }
}

} // verus!
