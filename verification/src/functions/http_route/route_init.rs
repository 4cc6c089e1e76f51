//! Building the runtime route instances from the route configuration:
//! regular expressions are compiled, hostnames lower-cased and methods
//! checked.
use vstd::prelude::*;

use crate::config::http_route_dto::{
    SgBackendRef, SgHttpHeaderMatch, SgHttpPathMatch, SgHttpQueryMatch, SgHttpRoute, SgHttpRouteMatch,
    SgHttpRouteRule,
};
use crate::error::SgError;
use crate::functions::http_route::valid_header_name;
use crate::instance::{
    SgBackendInst, SgHttpHeaderMatchInst, SgHttpHeaderMatchType, SgHttpPathMatchInst, SgHttpPathMatchType,
    SgHttpQueryMatchInst, SgHttpQueryMatchType, SgHttpRouteInst, SgHttpRouteMatchInst, SgHttpRouteRuleInst,
};
use crate::pattern::{regex_compiles, SgRegex};
use crate::text::{to_lowercase, unicode_lower};

verus! {

/* ------------------------------------------------------------------------
   What a built instance is
   ------------------------------------------------------------------------ */

/// A compiled regex for `value` exactly when the condition is regular.
pub open spec fn regex_built(regular: bool, value: Seq<char>, compiled: Option<SgRegex>) -> bool {
    if regular {
        compiled matches Some(r) && r@ == value
    } else {
        compiled is None
    }
}

pub open spec fn path_built(p: SgHttpPathMatch, pi: SgHttpPathMatchInst) -> bool {
    &&& pi.kind == p.kind
    &&& pi.value@ == p.value@
    &&& regex_built(p.kind == SgHttpPathMatchType::Regular, p.value@, pi.regular)
}

pub open spec fn header_built(h: SgHttpHeaderMatch, hi: SgHttpHeaderMatchInst) -> bool {
    &&& hi.kind == h.kind
    &&& hi.name@ == h.name@
    &&& hi.value@ == h.value@
    &&& regex_built(h.kind == SgHttpHeaderMatchType::Regular, h.value@, hi.regular)
}

pub open spec fn query_built(q: SgHttpQueryMatch, qi: SgHttpQueryMatchInst) -> bool {
    &&& qi.kind == q.kind
    &&& qi.name@ == q.name@
    &&& qi.value@ == q.value@
    &&& regex_built(q.kind == SgHttpQueryMatchType::Regular, q.value@, qi.regular)
}

/// A regular condition needs a pattern that compiles.
pub open spec fn pattern_ok(regular: bool, value: Seq<char>) -> bool {
    regular ==> regex_compiles(value)
}

/// The texts of a list of strings.
pub open spec fn texts(v: Seq<String>) -> Seq<Seq<char>> {
    v.map_values(|s: String| s@)
}

/// Whether `http::Method` accepts the text as a method.
pub open spec fn method_ok() -> spec_fn(Seq<char>) -> bool {
    |s: Seq<char>| valid_header_name(s)
}

pub open spec fn headers_built(hs: Seq<SgHttpHeaderMatch>, his: Seq<SgHttpHeaderMatchInst>) -> bool {
    his.len() == hs.len() && forall|i: int| 0 <= i < hs.len() ==> header_built(#[trigger] hs[i], his[i])
}

pub open spec fn queries_built(qs: Seq<SgHttpQueryMatch>, qis: Seq<SgHttpQueryMatchInst>) -> bool {
    qis.len() == qs.len() && forall|i: int| 0 <= i < qs.len() ==> query_built(#[trigger] qs[i], qis[i])
}

/// A match built from its configuration: the conditions carried over, the
/// regular ones compiled, and only the methods `http::Method` accepts kept.
pub open spec fn match_built(m: SgHttpRouteMatch, mi: SgHttpRouteMatchInst) -> bool {
    &&& match (m.path, mi.path) {
        (None, None) => true,
        (Some(p), Some(pi)) => path_built(p, pi),
        _ => false,
    }
    &&& match (m.header, mi.header) {
        (None, None) => true,
        (Some(hs), Some(his)) => headers_built(hs@, his@),
        _ => false,
    }
    &&& match (m.query, mi.query) {
        (None, None) => true,
        (Some(qs), Some(qis)) => queries_built(qs@, qis@),
        _ => false,
    }
    &&& match (m.method, mi.method) {
        (None, None) => true,
        (Some(ms), Some(mis)) => texts(mis@) == texts(ms@).filter(method_ok()),
        _ => false,
    }
}

/// Every regular condition of the match has a pattern that compiles.
pub open spec fn match_ok(m: SgHttpRouteMatch) -> bool {
    &&& match m.path {
        Some(p) => pattern_ok(p.kind == SgHttpPathMatchType::Regular, p.value@),
        None => true,
    }
    &&& match m.header {
        Some(hs) => forall|i: int| 0 <= i < hs@.len() ==> pattern_ok((#[trigger] hs@[i]).kind == SgHttpHeaderMatchType::Regular, hs@[i].value@),
        None => true,
    }
    &&& match m.query {
        Some(qs) => forall|i: int| 0 <= i < qs@.len() ==> pattern_ok((#[trigger] qs@[i]).kind == SgHttpQueryMatchType::Regular, qs@[i].value@),
        None => true,
    }
}

pub open spec fn backend_built(b: SgBackendRef, bi: SgBackendInst) -> bool {
    &&& bi.name_or_host@ == b.name_or_host@
    &&& match (b.namespace, bi.namespace) {
        (None, None) => true,
        (Some(x), Some(y)) => x@ == y@,
        _ => false,
    }
    &&& bi.port == b.port
    &&& bi.timeout_ms == b.timeout_ms
    &&& bi.protocol == b.protocol
    &&& bi.weight == b.weight
}

pub open spec fn matches_built(ms: Seq<SgHttpRouteMatch>, mis: Seq<SgHttpRouteMatchInst>) -> bool {
    mis.len() == ms.len() && forall|i: int| 0 <= i < ms.len() ==> match_built(#[trigger] ms[i], mis[i])
}

pub open spec fn backends_built(bs: Seq<SgBackendRef>, bis: Seq<SgBackendInst>) -> bool {
    bis.len() == bs.len() && forall|i: int| 0 <= i < bs.len() ==> backend_built(#[trigger] bs[i], bis[i])
}

pub open spec fn rule_built(r: SgHttpRouteRule, ri: SgHttpRouteRuleInst) -> bool {
    &&& ri.timeout_ms == r.timeout_ms
    &&& match (r.matches, ri.matches) {
        (None, None) => true,
        (Some(ms), Some(mis)) => matches_built(ms@, mis@),
        _ => false,
    }
    &&& match (r.backends, ri.backends) {
        (None, None) => true,
        (Some(bs), Some(bis)) => backends_built(bs@, bis@),
        _ => false,
    }
}

pub open spec fn rule_ok(r: SgHttpRouteRule) -> bool {
    match r.matches {
        Some(ms) => forall|i: int| 0 <= i < ms@.len() ==> match_ok(#[trigger] ms@[i]),
        None => true,
    }
}

pub open spec fn rules_built(rs: Seq<SgHttpRouteRule>, ris: Seq<SgHttpRouteRuleInst>) -> bool {
    ris.len() == rs.len() && forall|i: int| 0 <= i < rs.len() ==> rule_built(#[trigger] rs[i], ris[i])
}

/// A route built from its configuration: hostnames lower-cased (Unicode
/// lower case, as `str::to_lowercase`), rules built one by one.
pub open spec fn route_built(r: SgHttpRoute, ri: SgHttpRouteInst) -> bool {
    &&& match (r.hostnames, ri.hostnames) {
        (None, None) => true,
        (Some(hs), Some(his)) => his@.len() == hs@.len()
            && forall|i: int| 0 <= i < hs@.len() ==> (#[trigger] his@[i])@ == unicode_lower(hs@[i]@),
        _ => false,
    }
    &&& match (r.rules, ri.rules) {
        (None, None) => true,
        (Some(rs), Some(ris)) => rules_built(rs@, ris@),
        _ => false,
    }
}

/// Every regular pattern of the route compiles.
pub open spec fn route_ok(r: SgHttpRoute) -> bool {
    match r.rules {
        Some(rs) => forall|i: int| 0 <= i < rs@.len() ==> rule_ok(#[trigger] rs@[i]),
        None => true,
    }
}

/* ------------------------------------------------------------------------
   Building
   ------------------------------------------------------------------------ */

/// Whether `http::Method` accepts `s` (`str::parse::<http::Method>`). The
/// contract claims what the crate's source shows: a method is any non-empty
/// text of token characters.
#[verifier::external_body]
pub(crate) fn http_method_parses(s: &str) -> (r: bool)
    ensures
        r == valid_header_name(s@),
{
    s.parse::<http::Method>().is_ok()
}

/// The compiled pattern of a regular condition, or nothing for another.
fn compile_if(regular: bool, value: &String) -> (r: Result<Option<SgRegex>, SgError>)
    ensures
        match r {
            Ok(c) => pattern_ok(regular, value@) && regex_built(regular, value@, c),
            Err(e) => !pattern_ok(regular, value@) && e == SgError::FormatError,
        },
{
    if regular {
        match SgRegex::new(value.as_str()) {
            Some(re) => Ok(Some(re)),
            None => Err(SgError::FormatError),
        }
    } else {
        Ok(None)
    }
}

fn build_headers(hs: &Vec<SgHttpHeaderMatch>) -> (r: Result<Vec<SgHttpHeaderMatchInst>, SgError>)
    ensures
        match r {
            Ok(his) => headers_built(hs@, his@)
                && forall|i: int| 0 <= i < hs@.len() ==> pattern_ok((#[trigger] hs@[i]).kind == SgHttpHeaderMatchType::Regular, hs@[i].value@),
            Err(e) => e == SgError::FormatError
                && !(forall|i: int| 0 <= i < hs@.len() ==> pattern_ok((#[trigger] hs@[i]).kind == SgHttpHeaderMatchType::Regular, hs@[i].value@)),
        },
{
    let mut out: Vec<SgHttpHeaderMatchInst> = Vec::new();
    let mut i: usize = 0;
    while i < hs.len()
        invariant
            i <= hs@.len(),
            out@.len() == i,
            forall|j: int| 0 <= j < i ==> header_built(#[trigger] hs@[j], out@[j]),
            forall|j: int| 0 <= j < i ==> pattern_ok((#[trigger] hs@[j]).kind == SgHttpHeaderMatchType::Regular, hs@[j].value@),
        decreases hs.len() - i,
    {
        let h = &hs[i];
        let regular = match compile_if(h.kind == SgHttpHeaderMatchType::Regular, &h.value) {
            Ok(c) => c,
            Err(e) => {
                return Err(e);
            },
        };
        out.push(SgHttpHeaderMatchInst { kind: h.kind, name: h.name.clone(), value: h.value.clone(), regular });
        i = i + 1;
    }
    Ok(out)
}

fn build_queries(qs: &Vec<SgHttpQueryMatch>) -> (r: Result<Vec<SgHttpQueryMatchInst>, SgError>)
    ensures
        match r {
            Ok(qis) => queries_built(qs@, qis@)
                && forall|i: int| 0 <= i < qs@.len() ==> pattern_ok((#[trigger] qs@[i]).kind == SgHttpQueryMatchType::Regular, qs@[i].value@),
            Err(e) => e == SgError::FormatError
                && !(forall|i: int| 0 <= i < qs@.len() ==> pattern_ok((#[trigger] qs@[i]).kind == SgHttpQueryMatchType::Regular, qs@[i].value@)),
        },
{
    let mut out: Vec<SgHttpQueryMatchInst> = Vec::new();
    let mut i: usize = 0;
    while i < qs.len()
        invariant
            i <= qs@.len(),
            out@.len() == i,
            forall|j: int| 0 <= j < i ==> query_built(#[trigger] qs@[j], out@[j]),
            forall|j: int| 0 <= j < i ==> pattern_ok((#[trigger] qs@[j]).kind == SgHttpQueryMatchType::Regular, qs@[j].value@),
        decreases qs.len() - i,
    {
        let q = &qs[i];
        let regular = match compile_if(q.kind == SgHttpQueryMatchType::Regular, &q.value) {
            Ok(c) => c,
            Err(e) => {
                return Err(e);
            },
        };
        out.push(SgHttpQueryMatchInst { kind: q.kind, name: q.name.clone(), value: q.value.clone(), regular });
        i = i + 1;
    }
    Ok(out)
}

/// The methods `http::Method` accepts, in order.
fn build_methods(ms: &Vec<String>) -> (r: Vec<String>)
    ensures
        texts(r@) == texts(ms@).filter(method_ok()),
{
    let mut out: Vec<String> = Vec::new();
    let mut i: usize = 0;
    while i < ms.len()
        invariant
            i <= ms@.len(),
            texts(out@) == texts(ms@).take(i as int).filter(method_ok()),
        decreases ms.len() - i,
    {
        let ok = http_method_parses(ms[i].as_str());
        let ghost t = texts(ms@).take(i + 1);
        proof {
            assert(t.drop_last() =~= texts(ms@).take(i as int));
            assert(t.last() == ms@[i as int]@);
            assert(method_ok()(t.last()) == ok);
            reveal(Seq::filter);
            assert(t.filter(method_ok()) == (if method_ok()(t.last()) {
                t.drop_last().filter(method_ok()).push(t.last())
            } else {
                t.drop_last().filter(method_ok())
            }));
        }
        let ghost before = out@;
        if ok {
            let c = ms[i].clone();
            out.push(c);
            assert(texts(out@) =~= texts(before).push(ms@[i as int]@));
        }
        i = i + 1;
    }
    assert(texts(ms@).take(ms@.len() as int) =~= texts(ms@));
    out
}

fn build_match(m: &SgHttpRouteMatch) -> (r: Result<SgHttpRouteMatchInst, SgError>)
    ensures
        match r {
            Ok(mi) => match_ok(*m) && match_built(*m, mi),
            Err(e) => !match_ok(*m) && e == SgError::FormatError,
        },
{
    let path = match &m.path {
        Some(p) => {
            let regular = match compile_if(p.kind == SgHttpPathMatchType::Regular, &p.value) {
                Ok(c) => c,
                Err(e) => {
                    return Err(e);
                },
            };
            Some(SgHttpPathMatchInst { kind: p.kind, value: p.value.clone(), regular })
        },
        None => None,
    };
    let header = match &m.header {
        Some(hs) => match build_headers(hs) {
            Ok(his) => Some(his),
            Err(e) => {
                return Err(e);
            },
        },
        None => None,
    };
    let query = match &m.query {
        Some(qs) => match build_queries(qs) {
            Ok(qis) => Some(qis),
            Err(e) => {
                return Err(e);
            },
        },
        None => None,
    };
    let method = match &m.method {
        Some(ms) => Some(build_methods(ms)),
        None => None,
    };
    Ok(SgHttpRouteMatchInst { path, header, query, method })
}

fn build_backend(b: &SgBackendRef) -> (r: SgBackendInst)
    ensures
        backend_built(*b, r),
{
    SgBackendInst {
        name_or_host: b.name_or_host.clone(),
        namespace: match &b.namespace {
            Some(n) => Some(n.clone()),
            None => None,
        },
        port: b.port,
        timeout_ms: b.timeout_ms,
        protocol: b.protocol,
        weight: b.weight,
    }
}

fn build_rule(r: &SgHttpRouteRule) -> (out: Result<SgHttpRouteRuleInst, SgError>)
    ensures
        match out {
            Ok(ri) => rule_ok(*r) && rule_built(*r, ri),
            Err(e) => !rule_ok(*r) && e == SgError::FormatError,
        },
{
    let matches = match &r.matches {
        Some(ms) => {
            let mut mis: Vec<SgHttpRouteMatchInst> = Vec::new();
            let mut i: usize = 0;
            while i < ms.len()
                invariant
                    i <= ms@.len(),
                    r.matches == Some(*ms),
                    mis@.len() == i,
                    forall|j: int| 0 <= j < i ==> match_built(#[trigger] ms@[j], mis@[j]),
                    forall|j: int| 0 <= j < i ==> match_ok(#[trigger] ms@[j]),
                decreases ms.len() - i,
            {
                match build_match(&ms[i]) {
                    Ok(mi) => mis.push(mi),
                    Err(e) => {
                        assert(!match_ok(ms@[i as int]));
                        assert(r.matches->0@[i as int] == ms@[i as int]);
                        assert(!rule_ok(*r));
                        return Err(e);
                    },
                }
                i = i + 1;
            }
            Some(mis)
        },
        None => None,
    };
    let backends = match &r.backends {
        Some(bs) => {
            let mut bis: Vec<SgBackendInst> = Vec::new();
            let mut i: usize = 0;
            while i < bs.len()
                invariant
                    i <= bs@.len(),
                    bis@.len() == i,
                    forall|j: int| 0 <= j < i ==> backend_built(#[trigger] bs@[j], bis@[j]),
                decreases bs.len() - i,
            {
                bis.push(build_backend(&bs[i]));
                i = i + 1;
            }
            Some(bis)
        },
        None => None,
    };
    Ok(SgHttpRouteRuleInst { matches, backends, timeout_ms: r.timeout_ms })
}

/// Builds the instance of a route: hostnames lower-cased, regular patterns
/// compiled and methods checked. A regular pattern that does not compile is
/// a `FormatError`.
pub fn build_route_inst(route: &SgHttpRoute) -> (r: Result<SgHttpRouteInst, SgError>)
    ensures
        match r {
            Ok(ri) => route_ok(*route) && route_built(*route, ri),
            Err(e) => !route_ok(*route) && e == SgError::FormatError,
        },
{
    let hostnames = match &route.hostnames {
        Some(hs) => {
            let mut out: Vec<String> = Vec::new();
            let mut i: usize = 0;
            while i < hs.len()
                invariant
                    i <= hs@.len(),
                    out@.len() == i,
                    forall|j: int| 0 <= j < i ==> (#[trigger] out@[j])@ == unicode_lower(hs@[j]@),
                decreases hs.len() - i,
            {
                out.push(to_lowercase(hs[i].as_str()));
                i = i + 1;
            }
            Some(out)
        },
        None => None,
    };
    let rules = match &route.rules {
        Some(rs) => {
            let mut ris: Vec<SgHttpRouteRuleInst> = Vec::new();
            let mut i: usize = 0;
            while i < rs.len()
                invariant
                    i <= rs@.len(),
                    route.rules == Some(*rs),
                    ris@.len() == i,
                    forall|j: int| 0 <= j < i ==> rule_built(#[trigger] rs@[j], ris@[j]),
                    forall|j: int| 0 <= j < i ==> rule_ok(#[trigger] rs@[j]),
                decreases rs.len() - i,
            {
                match build_rule(&rs[i]) {
                    Ok(ri) => ris.push(ri),
                    Err(e) => {
                        assert(!rule_ok(rs@[i as int]));
                        assert(route.rules->0@[i as int] == rs@[i as int]);
                        return Err(e);
                    },
                }
                i = i + 1;
            }
            Some(ris)
        },
        None => None,
    };
    Ok(SgHttpRouteInst { hostnames, rules })
}

/// Builds the instances of all routes of a gateway, in order; the first
/// route whose patterns do not compile makes the whole a `FormatError`.
pub fn init_route_insts(routes: &Vec<SgHttpRoute>) -> (r: Result<Vec<SgHttpRouteInst>, SgError>)
    ensures
        match r {
            Ok(ris) => ris@.len() == routes@.len()
                && forall|i: int| 0 <= i < routes@.len() ==> route_ok(#[trigger] routes@[i]) && route_built(routes@[i], ris@[i]),
            Err(e) => e == SgError::FormatError && exists|i: int| 0 <= i < routes@.len() && !route_ok(#[trigger] routes@[i]),
        },
{
    let mut out: Vec<SgHttpRouteInst> = Vec::new();
    let mut i: usize = 0;
    while i < routes.len()
        invariant
            i <= routes@.len(),
            out@.len() == i,
            forall|j: int| 0 <= j < i ==> route_ok(#[trigger] routes@[j]) && route_built(routes@[j], out@[j]),
        decreases routes.len() - i,
    {
        match build_route_inst(&routes[i]) {
            Ok(ri) => out.push(ri),
            Err(e) => {
                assert(!route_ok(routes@[i as int]));
                return Err(e);
            },
        }
        i = i + 1;
    }
    Ok(out)
}

} // verus!
