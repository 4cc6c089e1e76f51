//! A layer that maps each response of the inner service.
use vstd::prelude::*;

verus! {

/// Wraps services with the response map `F`.
#[derive(Debug, Clone)]
pub struct MapResponseLayer<F> {
    pub map: F,
}

impl<F> MapResponseLayer<F> {
    pub fn new(map: F) -> (r: Self)
        ensures
            r.map == map,
    {
        MapResponseLayer { map }
    }
}

/// The service `S` with its responses mapped by `F`.
#[derive(Debug, Clone)]
pub struct MapResponse<F, S> {
    pub map: F,
    pub inner: S,
}

impl<F: Clone> MapResponseLayer<F> {
    /// Wraps the service `inner`.
    pub fn layer<S>(&self, inner: S) -> (r: MapResponse<F, S>)
        ensures
            r.inner == inner,
            cloned(self.map, r.map),
    {
        MapResponse { map: self.map.clone(), inner }
    }
}

} // verus!
