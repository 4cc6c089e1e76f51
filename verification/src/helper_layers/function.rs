//! A layer made of a function that gets each request together with the
//! inner service.
use vstd::prelude::*;

verus! {

/// A closure used as the function of an [`FnLayer`].
#[derive(Debug, Clone)]
pub struct Closure<F> {
    pub f: F,
}

/// Wraps services with the function `M`.
#[derive(Debug, Clone)]
pub struct FnLayer<M> {
    pub method: M,
}

impl<M> FnLayer<M> {
    pub fn new(method: M) -> (r: Self)
        ensures
            r.method == method,
    {
        FnLayer { method }
    }
}

impl<F> FnLayer<Closure<F>> {
    /// A layer whose function is the closure `f`.
    pub fn new_closure(f: F) -> (r: Self)
        ensures
            r.method.f == f,
    {
        FnLayer::new(Closure { f })
    }
}

/// The service an [`FnLayer`] makes of the inner service `S`.
#[derive(Debug, Clone)]
pub struct FnService<M, S> {
    pub m: M,
    pub inner: Inner<S>,
}

/// The inner service, as the layer's function gets it.
#[derive(Debug, Clone)]
pub struct Inner<S> {
    pub inner: S,
}

impl<M: Clone> FnLayer<M> {
    /// Wraps the service `inner`.
    pub fn layer<S>(&self, inner: S) -> (r: FnService<M, S>)
        ensures
            r.inner.inner == inner,
            cloned(self.method, r.m),
    {
        FnService { m: self.method.clone(), inner: Inner { inner } }
    }
}

} // verus!
