//! The HTTP route layer: routes, their rules and the backends of a rule, as
//! the gateway layer is built from them. The layers of plugins (`P`), the
//! match conditions of a rule (`M`), the rules of a route (`R`) and the
//! backends of a rule (`B`) are carried through as they are given.
pub mod builder;
pub mod predicate;

use vstd::prelude::*;

use self::builder::{SgHttpBackendLayerBuilder, SgHttpRouteLayerBuilder, SgHttpRouteRuleLayerBuilder};

verus! {

#[verifier::external_type_specification]
#[verifier::external_body]
pub struct ExExtensions(http::Extensions);

/// `http::Extensions::new`: an empty extension map; nothing is claimed of
/// it, as Verus cannot look into it.
pub assume_specification[ http::Extensions::new ]() -> http::Extensions;

/// A route: its name, the hostnames it serves, its plugins, its rules and
/// its priority (a higher one is tried first).
#[derive(Debug)]
pub struct SgHttpRoute<R, P> {
    pub name: String,
    pub hostnames: Vec<String>,
    pub plugins: Vec<P>,
    pub rules: Vec<R>,
    pub priority: i16,
    pub ext: http::Extensions,
}

impl<R, P> SgHttpRoute<R, P> {
    /// A builder of a route, with nothing set.
    pub fn builder() -> (r: SgHttpRouteLayerBuilder<R, P>)
        ensures
            r.name@.len() == 0,
            r.hostnames@.len() == 0,
            r.rules@.len() == 0,
            r.plugins@.len() == 0,
            r.priority is None,
    {
        SgHttpRouteLayerBuilder::new()
    }
}

/// A rule of a route: its match conditions (every request, when there are
/// none), its plugins, its timeout and its backends.
#[derive(Debug)]
pub struct SgHttpRouteRuleLayer<M, P, B> {
    pub matches: Option<Vec<M>>,
    pub plugins: Vec<P>,
    pub timeouts: Option<core::time::Duration>,
    pub backends: Vec<B>,
    pub ext: http::Extensions,
}

impl<M, P, B> SgHttpRouteRuleLayer<M, P, B> {
    /// A builder of a rule, with nothing set.
    pub fn builder() -> (r: SgHttpRouteRuleLayerBuilder<M, P, B>)
        ensures
            r.matches is None,
            r.plugins@.len() == 0,
            r.timeouts is None,
            r.backends@.len() == 0,
    {
        SgHttpRouteRuleLayerBuilder::new()
    }
}

/// A backend of a rule: where requests go, with what weight and timeout,
/// and through which plugins.
#[derive(Debug)]
pub struct SgHttpBackendLayer<P> {
    pub plugins: Vec<P>,
    pub host: Option<String>,
    pub port: Option<u16>,
    pub scheme: Option<String>,
    pub weight: u16,
    pub timeout: Option<core::time::Duration>,
    pub ext: http::Extensions,
}

impl<P> SgHttpBackendLayer<P> {
    /// A builder of a backend, with weight 1 and nothing else set.
    pub fn builder() -> (r: SgHttpBackendLayerBuilder<P>)
        ensures
            r.host is None,
            r.port is None,
            r.protocol is None,
            r.plugins@.len() == 0,
            r.timeout is None,
            r.weight == 1,
    {
        SgHttpBackendLayerBuilder::new()
    }
}

} // verus!
