//! Runtime instances of the routing configuration: routes, rules, match
//! conditions and backends, together with the parts of an incoming request
//! that routing reads.
use vstd::prelude::*;

use crate::config::gateway_dto::SgProtocol;
use crate::pattern::SgRegex;

verus! {

/// How a request path is compared with a configured value.
#[derive(Debug, Clone, Copy, PartialEq, Eq, Structural)]
pub enum SgHttpPathMatchType {
    /// The path equals the value.
    Exact,
    /// The path starts with the value.
    Prefix,
    /// The compiled regular expression matches somewhere in the path.
    Regular,
}

/// How a header value is compared with a configured value.
#[derive(Debug, Clone, Copy, PartialEq, Eq, Structural)]
pub enum SgHttpHeaderMatchType {
    Exact,
    Regular,
}

/// How a query parameter is compared with a configured value.
#[derive(Debug, Clone, Copy, PartialEq, Eq, Structural)]
pub enum SgHttpQueryMatchType {
    Exact,
    Regular,
}

/// A path condition; `regular` holds the compiled form of a `Regular` value.
#[derive(Debug, Clone)]
pub struct SgHttpPathMatchInst {
    pub kind: SgHttpPathMatchType,
    pub value: String,
    pub regular: Option<SgRegex>,
}

/// A header condition.
#[derive(Debug, Clone)]
pub struct SgHttpHeaderMatchInst {
    pub kind: SgHttpHeaderMatchType,
    pub name: String,
    pub value: String,
    pub regular: Option<SgRegex>,
}

/// A query parameter condition.
#[derive(Debug, Clone)]
pub struct SgHttpQueryMatchInst {
    pub kind: SgHttpQueryMatchType,
    pub name: String,
    pub value: String,
    pub regular: Option<SgRegex>,
}

/// One match of a rule: every present condition must hold.
#[derive(Debug, Clone)]
pub struct SgHttpRouteMatchInst {
    pub path: Option<SgHttpPathMatchInst>,
    pub header: Option<Vec<SgHttpHeaderMatchInst>>,
    pub query: Option<Vec<SgHttpQueryMatchInst>>,
    pub method: Option<Vec<String>>,
}

impl Default for SgHttpRouteMatchInst {
    fn default() -> (r: Self)
        ensures
            r.path is None,
            r.header is None,
            r.query is None,
            r.method is None,
    {
        SgHttpRouteMatchInst { path: None, header: None, query: None, method: None }
    }
}

/// A backend that a rule forwards to.
#[derive(Debug, Clone)]
pub struct SgBackendInst {
    pub name_or_host: String,
    pub namespace: Option<String>,
    pub port: u16,
    pub timeout_ms: Option<u64>,
    pub protocol: Option<SgProtocol>,
    pub weight: Option<u16>,
}

impl Default for SgBackendInst {
    fn default() -> (r: Self)
        ensures
            r.name_or_host@ == Seq::<char>::empty(),
            r.namespace is None,
            r.port == 0,
            r.timeout_ms is None,
            r.protocol is None,
            r.weight is None,
    {
        SgBackendInst {
            name_or_host: String::new(),
            namespace: None,
            port: 0,
            timeout_ms: None,
            protocol: None,
            weight: None,
        }
    }
}

/// A rule of a route: its matches (`None` matches every request), its
/// backends and its timeout.
#[derive(Debug, Clone)]
pub struct SgHttpRouteRuleInst {
    pub matches: Option<Vec<SgHttpRouteMatchInst>>,
    pub backends: Option<Vec<SgBackendInst>>,
    pub timeout_ms: Option<u64>,
}

impl Default for SgHttpRouteRuleInst {
    fn default() -> (r: Self)
        ensures
            r.matches is None,
            r.backends is None,
            r.timeout_ms is None,
    {
        SgHttpRouteRuleInst { matches: None, backends: None, timeout_ms: None }
    }
}

/// A route: the hostnames it serves (`None` serves every hostname) and its
/// rules.
#[derive(Debug, Clone)]
pub struct SgHttpRouteInst {
    pub hostnames: Option<Vec<String>>,
    pub rules: Option<Vec<SgHttpRouteRuleInst>>,
}

impl Default for SgHttpRouteInst {
    fn default() -> (r: Self)
        ensures
            r.hostnames is None,
            r.rules is None,
    {
        SgHttpRouteInst { hostnames: None, rules: None }
    }
}

/// The parts of an HTTP request that routing reads: the method, the host
/// and path and raw (still percent-encoded) query of the URI, and the header
/// fields in the order a header map yields them, each as its name and raw
/// value bytes.
#[derive(Debug, Clone)]
pub struct SgRequestParts {
    pub method: String,
    pub host: Option<String>,
    pub path: String,
    pub query: Option<String>,
    pub headers: Vec<(String, Vec<u8>)>,
}

} // verus!
