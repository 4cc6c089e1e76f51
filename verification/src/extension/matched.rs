//! Which route a request matched.
use vstd::prelude::*;

verus! {

/// The router that matched a request and the index it matched at.
#[derive(Debug, Clone)]
pub struct Matched<R, I> {
    pub router: R,
    pub index: I,
}

} // verus!
