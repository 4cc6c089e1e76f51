//! HTTP route configuration: routes, rules, match conditions and backends.
use vstd::prelude::*;

use crate::config::gateway_dto::SgProtocol;
use crate::config::plugin_filter_dto::SgRouteFilter;
use crate::instance::{SgHttpHeaderMatchType, SgHttpPathMatchType, SgHttpQueryMatchType};

verus! {

/// HTTPRoute provides a way to route HTTP requests.
#[derive(Debug, Clone)]
pub struct SgHttpRoute {
    /// Associated gateway name.
    pub gateway_name: String,
    /// The hostnames whose requests the route handles; all, when not given.
    pub hostnames: Option<Vec<String>>,
    /// The filters of all the route's requests.
    pub filters: Option<Vec<SgRouteFilter>>,
    /// The rules: matchers and where matching requests go.
    pub rules: Option<Vec<SgHttpRouteRule>>,
}

/// A rule: the conditions a request must meet (any one of the matches), the
/// backends it goes to, and the timeout.
#[derive(Debug, Clone)]
pub struct SgHttpRouteRule {
    pub matches: Option<Vec<SgHttpRouteMatch>>,
    pub filters: Option<Vec<SgRouteFilter>>,
    pub backends: Option<Vec<SgBackendRef>>,
    pub timeout_ms: Option<u64>,
}

/// One set of conditions; every given condition must hold.
#[derive(Debug, Clone)]
pub struct SgHttpRouteMatch {
    pub path: Option<SgHttpPathMatch>,
    pub header: Option<Vec<SgHttpHeaderMatch>>,
    pub query: Option<Vec<SgHttpQueryMatch>>,
    pub method: Option<Vec<String>>,
}

/// A condition on the path.
#[derive(Debug, Clone)]
pub struct SgHttpPathMatch {
    pub kind: SgHttpPathMatchType,
    pub value: String,
}

/// A condition on a header.
#[derive(Debug, Clone)]
pub struct SgHttpHeaderMatch {
    pub kind: SgHttpHeaderMatchType,
    pub name: String,
    pub value: String,
}

/// A condition on a query parameter.
#[derive(Debug, Clone)]
pub struct SgHttpQueryMatch {
    pub kind: SgHttpQueryMatchType,
    pub name: String,
    pub value: String,
}

/// BackendRef defines how a route forwards a request.
#[derive(Debug, Clone)]
pub struct SgBackendRef {
    /// The kubernetes service name or the host.
    pub name_or_host: String,
    /// The kubernetes namespace.
    pub namespace: Option<String>,
    pub port: u16,
    pub timeout_ms: Option<u64>,
    pub protocol: Option<SgProtocol>,
    /// The share of requests the backend gets: its weight over the sum of
    /// the weights.
    pub weight: Option<u16>,
    /// The filters of the requests sent to this backend.
    pub filters: Option<Vec<SgRouteFilter>>,
}

/// The host of a backend: its name, followed by `.namespace` when it has a
/// namespace.
pub open spec fn backend_host(name: Seq<char>, namespace: Option<Seq<char>>) -> Seq<char> {
    match namespace {
        Some(ns) => name + seq!['.'] + ns,
        None => name,
    }
}

impl SgBackendRef {
    /// The backend's host (see [`backend_host`]).
    pub fn get_host(&self) -> (r: String)
        ensures
            r@ == backend_host(self.name_or_host@, match self.namespace {
                Some(n) => Some(n@),
                None => None,
            }),
    {
        match &self.namespace {
            Some(ns) => {
                let mut r = self.name_or_host.clone();
                r.append(".");
                r.append(ns.as_str());
                proof {
                    reveal_strlit(".");
                }
                r
            },
            None => self.name_or_host.clone(),
        }
    }
}

} // verus!
