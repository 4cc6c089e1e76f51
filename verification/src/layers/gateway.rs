//! The gateway layer's routed services.
use vstd::prelude::*;

verus! {

/// The services of a gateway, by route and then by rule.
#[derive(Debug, Clone)]
pub struct SgGatewayRoutedServices<S> {
    pub services: Vec<Vec<S>>,
}

impl<S> SgGatewayRoutedServices<S> {
    /// The service of rule `index.1` of route `index.0`.
    pub fn index(&self, index: (usize, usize)) -> (r: &S)
        requires
            index.0 < self.services@.len(),
            index.1 < self.services@[index.0 as int]@.len(),
        ensures
            *r == self.services@[index.0 as int]@[index.1 as int],
    {
        &self.services[index.0][index.1]
    }
}

} // verus!
