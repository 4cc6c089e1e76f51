//! The decisions a gateway takes for one request: how its URI is completed
//! from the `Host` header, whether a listener and a route accept it, which
//! backend it goes to and whether it is a websocket upgrade.
use vstd::prelude::*;

use crate::config::gateway_dto::SgListener;
use crate::error::SgError;
use crate::functions::http_route::{
    backend_weight, backend_weights, choose_backend, header_get, header_lookup, header_text, header_value_text,
    listener_accepts, match_listeners_hostname_and_port, match_route_process, route_search,
    route_search_safe, route_search_safe_check,
};
use crate::instance::{SgHttpRouteInst, SgRequestParts};
use crate::random::weight_sum;
use crate::text::{ascii_lower_seq, chars_of, eq_ignore_ascii_case, eq_ignore_ascii_case_spec};
use crate::urls::{http_uri_text, http_uri_text_spec};

verus! {

/// The URI written out with the scheme and the `Host` header's value in
/// front: `scheme://host` followed by the path and query.
pub open spec fn uri_with_host(scheme: Seq<char>, host: Seq<char>, uri: Seq<char>) -> Seq<char> {
    scheme + seq![':', '/', '/'] + host + uri
}

/// Completes a URI that has no host from the `Host` header: the header's
/// value must be visible ASCII (else `BadRequest`), and the completed text
/// must be a valid URI (else `BadRequest`); the result is the URI as the
/// `http` crate writes it.
pub fn rebuild_uri(scheme: &str, host_header: &Vec<u8>, uri: &str) -> (r: Result<String, SgError>)
    ensures
        match header_value_text(host_header@) {
            None => r == Err::<String, SgError>(SgError::BadRequest),
            Some(h) => match http_uri_text_spec(uri_with_host(scheme@, h, uri@)) {
                Some(t) => r matches Ok(s) && s@ == t,
                None => r == Err::<String, SgError>(SgError::BadRequest),
            },
        },
{
    let host = match header_text(host_header) {
        Some(h) => h,
        None => {
            return Err(SgError::BadRequest);
        },
    };
    let mut text = String::new();
    text.append(scheme);
    text.append("://");
    text.append(host.as_str());
    text.append(uri);
    proof {
        reveal_strlit("://");
        assert(text@ =~= uri_with_host(scheme@, host@, uri@));
    }
    match http_uri_text(text.as_str()) {
        Some(t) => Ok(t),
        None => Err(SgError::BadRequest),
    }
}

/// What a gateway does with a request.
#[derive(Debug, Clone, Copy)]
pub enum RouteDecision {
    /// No listener takes the host and port, or no route matches: 404.
    NotFound,
    /// A websocket upgrade that has no backend, or that the gateway does
    /// not handle: a bad request.
    WebsocketRefused,
    /// A websocket upgrade, forwarded to the backend of the rule.
    Websocket { route: usize, rule: (usize, usize), matched: Option<(usize, usize, usize)>, backend: usize },
    /// A plain request: the route, the rule and match found, and the
    /// backend chosen from the rule.
    Http { route: usize, rule: Option<(usize, usize)>, matched: Option<(usize, usize, usize)>, backend: Option<usize> },
}

/// The backends of the rule at (route, rule).
pub open spec fn rule_backends(routes: Seq<SgHttpRouteInst>, at: (usize, usize)) -> Option<Seq<crate::instance::SgBackendInst>> {
    match routes[at.0 as int].rules {
        Some(rules) => match rules@[at.1 as int].backends {
            Some(bs) => Some(bs@),
            None => None,
        },
        None => None,
    }
}

/// A list of backends can be chosen from: one or none, or weights that are
/// not all zero and sum to at most `u16::MAX`.
pub open spec fn backends_choosable(bs: Seq<crate::instance::SgBackendInst>) -> bool {
    bs.len() > 1 ==> 0 < weight_sum(backend_weights(bs), bs.len() as int) <= u16::MAX
}

/// Whether the request asks for a websocket upgrade: its `Upgrade` header
/// reads `websocket` in any ASCII case.
pub open spec fn is_upgrade(req: SgRequestParts) -> bool {
    match header_lookup(req.headers@, seq!['u', 'p', 'g', 'r', 'a', 'd', 'e']) {
        Some(v) => match header_value_text(v) {
            Some(t) => eq_ignore_ascii_case_spec(t, seq!['w', 'e', 'b', 's', 'o', 'c', 'k', 'e', 't']),
            None => false,
        },
        None => false,
    }
}

/// The request can be routed without failing: its conditions can be
/// checked, the backends of the rule found can be chosen from, and an
/// `Upgrade` header, if any, is text.
pub open spec fn request_routable(req: SgRequestParts, routes: Seq<SgHttpRouteInst>) -> bool {
    &&& route_search_safe(req, routes)
    &&& match route_search(req, routes).matched_rule {
        Some(at) => at.0 < routes.len() && (routes[at.0 as int].rules matches Some(rs) && at.1 < rs@.len())
            && match rule_backends(routes, at) {
                Some(bs) => backends_choosable(bs),
                None => true,
            },
        None => true,
    }
    &&& match header_lookup(req.headers@, seq!['u', 'p', 'g', 'r', 'a', 'd', 'e']) {
        Some(v) => header_value_text(v) is Some,
        None => true,
    }
}

/// Whether some listener takes the request's host and port (any request
/// without a host is taken).
pub open spec fn listened(req: SgRequestParts, port: u16, listeners: Seq<SgListener>) -> bool {
    match req.host {
        None => true,
        Some(h) => exists|i: int| 0 <= i < listeners.len() && listener_accepts(#[trigger] listeners[i], h@, port),
    }
}

/// What [`route_request`] decides for a request that came in on `port`
/// (see there).
pub open spec fn route_decided(req: SgRequestParts, port: u16, listeners: Seq<SgListener>, routes: Seq<SgHttpRouteInst>, websocket_enabled: bool, r: RouteDecision) -> bool {
    &&& !listened(req, port, listeners) ==> r == RouteDecision::NotFound
    &&& listened(req, port, listeners) ==> ({
        let s = route_search(req, routes);
        match s.matched_route {
            None => r == RouteDecision::NotFound,
            Some(route) => {
                let bs = match s.matched_rule {
                    Some(at) => rule_backends(routes, at),
                    None => None,
                };
                if is_upgrade(req) {
                    if !websocket_enabled {
                        r == RouteDecision::WebsocketRefused
                    } else {
                        match bs {
                            Some(b) if b.len() > 0 => r matches RouteDecision::Websocket { route: r0, rule: rl, matched: m, backend: k }
                                && r0 == route && Some(rl) == s.matched_rule && m == s.matched_match && k < b.len()
                                && (b.len() == 1 ==> k == 0)
                                && (b.len() > 1 ==> backend_weight(b[k as int]) > 0),
                            _ => r == RouteDecision::WebsocketRefused,
                        }
                    }
                } else {
                    r matches RouteDecision::Http { route: r0, rule: rl, matched: m, backend: k }
                        && r0 == route && rl == s.matched_rule && m == s.matched_match
                        && match bs {
                            Some(b) if b.len() > 0 => k matches Some(kk) && kk < b.len() && (b.len() == 1 ==> kk == 0)
                                && (b.len() > 1 ==> backend_weight(b[kk as int]) > 0),
                            _ => k is None,
                        }
                }
            },
        }
    })
}

/// Decides what to do with a request that came in on `port`: a request no
/// listener takes, or no route matches, is not found; a websocket upgrade
/// goes to the backend chosen from the rule found (refused without one, or
/// when the gateway does not handle websockets); any other request goes on
/// with the route, rule and match found and the backend chosen from the
/// rule.
pub fn route_request(req: &SgRequestParts, port: u16, listeners: &[SgListener], routes: &[SgHttpRouteInst], websocket_enabled: bool) -> (r: RouteDecision)
    requires
        listened(*req, port, listeners@) ==> request_routable(*req, routes@),
    ensures
        route_decided(*req, port, listeners@, routes@, websocket_enabled, r),
{
    let host = match &req.host {
        Some(h) => Some(h.as_str()),
        None => None,
    };
    if !match_listeners_hostname_and_port(host, port, listeners) {
        return RouteDecision::NotFound;
    }
    let (route, rule, matched) = match_route_process(req, routes);
    let route = match route {
        Some(r) => r,
        None => {
            return RouteDecision::NotFound;
        },
    };
    let backend: Option<usize> = match rule {
        Some(at) => {
            let rules = routes[at.0].rules.as_ref().unwrap();
            match &rules[at.1].backends {
                Some(bs) => choose_backend(bs.as_slice()),
                None => None,
            }
        },
        None => None,
    };
    proof {
        reveal_strlit("upgrade");
        assert("upgrade"@ =~= seq!['u', 'p', 'g', 'r', 'a', 'd', 'e']);
    }
    let upgrade = match header_get(&req.headers, "upgrade") {
        Some(v) => {
            let t = header_text(v).unwrap();
            let tc = chars_of(t.as_str());
            let ws: Vec<char> = vec!['w', 'e', 'b', 's', 'o', 'c', 'k', 'e', 't'];
            eq_ignore_ascii_case(tc.as_slice(), ws.as_slice())
        },
        None => false,
    };
    if upgrade {
        if !websocket_enabled {
            return RouteDecision::WebsocketRefused;
        }
        match (rule, backend) {
            (Some(at), Some(k)) => RouteDecision::Websocket { route, rule: at, matched, backend: k },
            _ => RouteDecision::WebsocketRefused,
        }
    } else {
        RouteDecision::Http { route, rule, matched, backend }
    }
}

/// Weights only add up: the sum of more of them is no smaller.
proof fn lemma_weight_sum_grows(ws: Seq<u16>, i: int, n: int)
    requires
        0 <= i <= n,
    ensures
        weight_sum(ws, i) <= weight_sum(ws, n),
    decreases n - i,
{
    if i < n {
        lemma_weight_sum_grows(ws, i, n - 1);
    }
}

/// Whether a backend list passes the check [`backends_choosable`] asks for.
fn backends_choosable_check(bs: &Vec<crate::instance::SgBackendInst>) -> (r: bool)
    ensures
        r == backends_choosable(bs@),
{
    if bs.len() <= 1 {
        return true;
    }
    let ghost ws = backend_weights(bs@);
    let mut sum: u64 = 0;
    let mut i: usize = 0;
    while i < bs.len()
        invariant
            i <= bs@.len(),
            bs@.len() > 1,
            ws == backend_weights(bs@),
            sum == weight_sum(ws, i as int),
            sum <= 65535,
        decreases bs.len() - i,
    {
        let w: u16 = match bs[i].weight {
            Some(w) => w,
            None => 0,
        };
        assert(ws[i as int] == w);
        let next: u64 = sum + w as u64;
        if next > 65535 {
            proof {
                lemma_weight_sum_grows(ws, i + 1, bs@.len() as int);
            }
            return false;
        }
        sum = next;
        i = i + 1;
    }
    0 < sum && sum <= 65535
}

/// Decides what to do with a request as [`route_request`] does, when no
/// listener takes it or it can be routed ([`request_routable`]); `None`
/// when a listener takes it and it cannot be routed:
/// some condition the search checks needs a missing regex or a query that
/// does not decode, the rule found has backends that cannot be chosen
/// from, or an `Upgrade` header is not text.
pub fn route_request_checked(req: &SgRequestParts, port: u16, listeners: &[SgListener], routes: &[SgHttpRouteInst], websocket_enabled: bool) -> (r: Option<RouteDecision>)
    ensures
        r is Some <==> (listened(*req, port, listeners@) ==> request_routable(*req, routes@)),
        r matches Some(d) ==> route_decided(*req, port, listeners@, routes@, websocket_enabled, d),
{
    let host = match &req.host {
        Some(h) => Some(h.as_str()),
        None => None,
    };
    if !match_listeners_hostname_and_port(host, port, listeners) {
        return Some(route_request(req, port, listeners, routes, websocket_enabled));
    }
    if !route_search_safe_check(req, routes) {
        return None;
    }
    let (_, rule, _) = match_route_process(req, routes);
    match rule {
        Some(at) => {
            if at.0 >= routes.len() {
                return None;
            }
            match &routes[at.0].rules {
                None => {
                    return None;
                },
                Some(rs) => {
                    if at.1 >= rs.len() {
                        return None;
                    }
                    match &rs[at.1].backends {
                        Some(bs) => {
                            if !backends_choosable_check(bs) {
                                return None;
                            }
                        },
                        None => {},
                    }
                },
            }
        },
        None => {},
    }
    proof {
        reveal_strlit("upgrade");
        assert("upgrade"@ =~= seq!['u', 'p', 'g', 'r', 'a', 'd', 'e']);
    }
    match header_get(&req.headers, "upgrade") {
        Some(v) => {
            if header_text(v).is_none() {
                return None;
            }
        },
        None => {},
    }
    Some(route_request(req, port, listeners, routes, websocket_enabled))
}

/// A request that no listener takes, or for which no route matches, is not
/// found: no filter runs and no backend is chosen for it.
pub proof fn lemma_unrouted_not_found(req: SgRequestParts, port: u16, listeners: Seq<SgListener>, routes: Seq<SgHttpRouteInst>, websocket_enabled: bool, r: RouteDecision)
    requires
        route_decided(req, port, listeners, routes, websocket_enabled, r),
        !listened(req, port, listeners) || route_search(req, routes).matched_route is None,
    ensures
        r == RouteDecision::NotFound,
{
}

} // verus!
