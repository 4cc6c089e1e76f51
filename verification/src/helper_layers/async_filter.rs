//! A layer that filters each request, asynchronously, before the inner
//! service sees it.
use vstd::prelude::*;

verus! {

/// Wraps services with the filter `F`.
#[derive(Debug, Clone)]
pub struct AsyncFilterRequestLayer<F> {
    pub filter: F,
}

impl<F> AsyncFilterRequestLayer<F> {
    pub fn new(filter: F) -> (r: Self)
        ensures
            r.filter == filter,
    {
        AsyncFilterRequestLayer { filter }
    }
}

/// The service `S` behind the filter `F`.
#[derive(Debug, Clone)]
pub struct AsyncFilterRequest<F, S> {
    pub filter: F,
    pub inner: S,
}

impl<F: Clone> AsyncFilterRequestLayer<F> {
    /// Wraps the service `inner`.
    pub fn layer<S>(&self, inner: S) -> (r: AsyncFilterRequest<F, S>)
        ensures
            r.inner == inner,
            cloned(self.filter, r.filter),
    {
        AsyncFilterRequest { filter: self.filter.clone(), inner }
    }
}

} // verus!
