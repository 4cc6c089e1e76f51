//! Filter kinds, the levels filters attach to, which requests a filter
//! accepts, and the path rewriting shared by the redirect and rewrite
//! filters.
use vstd::prelude::*;

use crate::config::gateway_dto::{SgGateway, SgParameters};
use crate::config::http_route_dto::{SgBackendRef, SgHttpRoute, SgHttpRouteRule};
use crate::error::SgError;
use crate::keyed::{entries_map, find_key, keys_distinct, put_key};
use crate::instance::{SgHttpPathMatchInst, SgHttpPathMatchType, SgHttpRouteMatchInst};
use crate::pattern::regex_group1;
use crate::text::{chars_of, push_all, slice_chars, starts_with, starts_with_spec, string_of, string_push};
use crate::urls::{http_uri_text, http_uri_text_spec, url_path, url_path_spec, url_with_path, url_with_path_spec};

pub mod compression;
pub mod header_modifier;
pub mod inject;
pub mod limit;
pub mod maintenance;
pub mod redirect;
pub mod retry;
pub mod rewrite;
pub mod status;

verus! {

/// The kinds of traffic a filter handles, and the kind of a request.
#[derive(Debug, Clone, Copy, PartialEq, Eq, Structural)]
pub enum SgPluginFilterKind {
    Http,
    Grpc,
    Ws,
}

/// The levels at which a filter can be attached.
#[derive(Debug, Clone, Copy, PartialEq, Eq, Structural)]
pub enum SgAttachedLevel {
    Gateway,
    HttpRoute,
    Rule,
    Backend,
}

impl SgAttachedLevel {
    /// The level's name, as its `Display` writes it.
    pub fn as_str(&self) -> (r: &'static str)
        ensures
            r@ == attached_level_name(*self),
    {
        proof {
            reveal_strlit("GateWay");
            reveal_strlit("HttpRoute");
            reveal_strlit("Rule");
            reveal_strlit("Backend");
        }
        match self {
            SgAttachedLevel::Gateway => "GateWay",
            SgAttachedLevel::HttpRoute => "HttpRoute",
            SgAttachedLevel::Rule => "Rule",
            SgAttachedLevel::Backend => "Backend",
        }
    }
}

/// The display name of an attachment level.
pub open spec fn attached_level_name(l: SgAttachedLevel) -> Seq<char> {
    match l {
        SgAttachedLevel::Gateway => seq!['G', 'a', 't', 'e', 'W', 'a', 'y'],
        SgAttachedLevel::HttpRoute => seq!['H', 't', 't', 'p', 'R', 'o', 'u', 't', 'e'],
        SgAttachedLevel::Rule => seq!['R', 'u', 'l', 'e'],
        SgAttachedLevel::Backend => seq!['B', 'a', 'c', 'k', 'e', 'n', 'd'],
    }
}

/// Which requests a filter runs on.
#[derive(Debug, Clone)]
pub struct SgPluginFilterAccept {
    /// The kinds of request the filter handles.
    pub kind: Vec<SgPluginFilterKind>,
    /// Whether the filter also runs on responses that are errors (by
    /// default it does not).
    pub accept_error_response: bool,
}

impl Default for SgPluginFilterAccept {
    fn default() -> (r: Self)
        ensures
            r.kind@ == seq![SgPluginFilterKind::Http],
            !r.accept_error_response,
    {
        let mut kind: Vec<SgPluginFilterKind> = Vec::new();
        kind.push(SgPluginFilterKind::Http);
        SgPluginFilterAccept { kind, accept_error_response: false }
    }
}

impl SgPluginFilterAccept {
    /// Whether a filter accepting these requests runs: an error response is
    /// filtered only when the filter accepts error responses, and the
    /// request kind must be one the filter handles.
    pub fn before_resp_filter_check(&self, is_resp_error: bool, request_kind: SgPluginFilterKind) -> (r: bool)
        ensures
            r == ((!is_resp_error || self.accept_error_response) && self.kind@.contains(request_kind)),
    {
        let accept_error_response = if is_resp_error {
            self.accept_error_response
        } else {
            true
        };
        if accept_error_response {
            let mut i: usize = 0;
            while i < self.kind.len()
                invariant
                    i <= self.kind.len(),
                    !is_resp_error || self.accept_error_response,
                    forall|j: int| 0 <= j < i ==> self.kind@[j] != request_kind,
                decreases self.kind.len() - i,
            {
                if self.kind[i] == request_kind {
                    assert(self.kind@[i as int] == request_kind);
                    assert(self.kind@.contains(request_kind));
                    return true;
                }
                i = i + 1;
            }
            false
        } else {
            false
        }
    }
}

/// How a filter rewrites the request path.
#[derive(Debug, Clone, Copy, PartialEq, Eq, Structural)]
pub enum SgHttpPathModifierType {
    /// The whole path is replaced by the value.
    ReplaceFullPath,
    /// The part of the path that the route matched is replaced by the value.
    ReplacePrefixMatch,
}

/// A path rewrite.
#[derive(Debug, Clone)]
pub struct SgHttpPathModifier {
    pub kind: SgHttpPathModifierType,
    pub value: String,
}

/// The part of the original path that a prefix or regular path condition
/// matched: the prefix itself, or the first capture group of the regex
/// (empty when it did not capture).
pub open spec fn consumed_prefix(mp: SgHttpPathMatchInst, origin: Seq<char>) -> Seq<char> {
    if mp.kind == SgHttpPathMatchType::Prefix {
        mp.value@
    } else {
        match regex_group1(mp.regular->0@, origin) {
            Some(g) => g,
            None => Seq::<char>::empty(),
        }
    }
}

/// Puts the replacement `value` in front of the rest of the path, with
/// exactly one `/` between them when the rest is not empty.
pub open spec fn join_path(value: Seq<char>, rest: Seq<char>) -> Seq<char> {
    let vs = value.len() > 0 && value.last() == '/';
    if rest.len() == 0 {
        value
    } else if rest[0] == '/' && vs {
        value + rest.skip(1)
    } else if rest[0] == '/' || vs {
        value + rest
    } else {
        value + seq!['/'] + rest
    }
}

/// The rewritten path. A full replacement, a prefix replacement after an
/// exact path match, and a prefix replacement without a matched path
/// condition all give the value; otherwise the matched part is replaced,
/// and a path that does not start with it is an error.
pub open spec fn new_path_spec(origin: Seq<char>, md: SgHttpPathModifier, matched: Option<SgHttpRouteMatchInst>) -> Result<Seq<char>, SgError> {
    match md.kind {
        SgHttpPathModifierType::ReplaceFullPath => Ok(md.value@),
        SgHttpPathModifierType::ReplacePrefixMatch => match matched {
            Some(m) => match m.path {
                Some(mp) => if mp.kind == SgHttpPathMatchType::Exact {
                    Ok(md.value@)
                } else {
                    let c = consumed_prefix(mp, origin);
                    if starts_with_spec(origin, c) {
                        Ok(join_path(md.value@, origin.skip(c.len() as int)))
                    } else {
                        Err(SgError::FormatError)
                    }
                },
                None => Ok(md.value@),
            },
            None => Ok(md.value@),
        },
    }
}

/// The URI after the path rewrite: `None` without a rewrite; an error when
/// the URI is not an absolute URL, when the rewrite fails, or when the
/// rewritten URL is not a valid URI.
pub open spec fn modify_path_spec(uri: Seq<char>, modify: Option<SgHttpPathModifier>, matched: Option<SgHttpRouteMatchInst>) -> Result<Option<Seq<char>>, SgError> {
    match modify {
        None => Ok(None),
        Some(md) => match url_path_spec(uri) {
            None => Err(SgError::FormatError),
            Some(origin) => match new_path_spec(origin, md, matched) {
                Err(e) => Err(e),
                Ok(np) => match url_with_path_spec(uri, np) {
                    None => Err(SgError::FormatError),
                    Some(u) => match http_uri_text_spec(u) {
                        None => Err(SgError::InternalError),
                        Some(t) => Ok(Some(t)),
                    },
                },
            },
        },
    }
}

/// A prefix rewrite after a regular path match needs that match's compiled
/// regex.
pub open spec fn modify_path_ready(modify: Option<SgHttpPathModifier>, matched: Option<SgHttpRouteMatchInst>) -> bool {
    match (modify, matched) {
        (Some(md), Some(m)) => md.kind == SgHttpPathModifierType::ReplacePrefixMatch ==> match m.path {
            Some(mp) => mp.kind == SgHttpPathMatchType::Regular ==> mp.regular is Some,
            None => true,
        },
        _ => true,
    }
}

/// The matched match as a plain value.
pub open spec fn opt_match(m: Option<&SgHttpRouteMatchInst>) -> Option<SgHttpRouteMatchInst> {
    match m {
        Some(x) => Some(*x),
        None => None,
    }
}

/// Replaces the start `c` of `origin` by `value` (see [`join_path`]).
fn join_rest(value: &Vec<char>, origin: &Vec<char>, c: &Vec<char>) -> (r: Vec<char>)
    requires
        starts_with_spec(origin@, c@),
    ensures
        r@ == join_path(value@, origin@.skip(c@.len() as int)),
{
    let rest = slice_chars(origin.as_slice(), c.len(), origin.len());
    assert(rest@ =~= origin@.skip(c@.len() as int));
    let vs = value.len() > 0 && value[value.len() - 1] == '/';
    let mut out: Vec<char> = Vec::new();
    let mut i: usize = 0;
    while i < value.len()
        invariant
            i <= value.len(),
            out@ == value@.take(i as int),
        decreases value.len() - i,
    {
        out.push(value[i]);
        assert(value@.take(i + 1) =~= value@.take(i as int).push(value@[i as int]));
        i = i + 1;
    }
    assert(value@.take(value.len() as int) =~= value@);
    if rest.len() == 0 {
        return out;
    }
    let start: usize = if rest[0] == '/' && vs {
        1
    } else {
        0
    };
    if rest[0] != '/' && !vs {
        out.push('/');
    }
    let ghost base = out@;
    let mut j: usize = start;
    while j < rest.len()
        invariant
            start <= j <= rest.len(),
            out@ == base + rest@.subrange(start as int, j as int),
        decreases rest.len() - j,
    {
        out.push(rest[j]);
        assert(rest@.subrange(start as int, j + 1) =~= rest@.subrange(start as int, j as int).push(rest@[j as int]));
        j = j + 1;
    }
    assert(rest@.subrange(start as int, rest.len() as int) =~= rest@.skip(start as int));
    if rest[0] == '/' && vs {
        assert(out@ =~= value@ + rest@.skip(1));
    } else if rest[0] == '/' || vs {
        assert(rest@.skip(0) =~= rest@);
        assert(out@ =~= value@ + rest@);
    } else {
        assert(rest@.skip(0) =~= rest@);
        assert(out@ =~= value@ + seq!['/'] + rest@);
    }
    out
}

/// The rewritten path for the original path `origin`.
fn new_path(origin: &str, md: &SgHttpPathModifier, matched: Option<&SgHttpRouteMatchInst>) -> (r: Result<Vec<char>, SgError>)
    requires
        modify_path_ready(Some(*md), opt_match(matched)),
    ensures
        match new_path_spec(origin@, *md, opt_match(matched)) {
            Ok(p) => r matches Ok(v) && v@ == p,
            Err(e) => r == Err::<Vec<char>, SgError>(e),
        },
{
    let value = chars_of(md.value.as_str());
    match md.kind {
        SgHttpPathModifierType::ReplaceFullPath => Ok(value),
        SgHttpPathModifierType::ReplacePrefixMatch => match matched {
            Some(m) => match &m.path {
                Some(mp) => {
                    if mp.kind == SgHttpPathMatchType::Exact {
                        Ok(value)
                    } else {
                        let o = chars_of(origin);
                        let c: Vec<char> = if mp.kind == SgHttpPathMatchType::Prefix {
                            chars_of(mp.value.as_str())
                        } else {
                            match &mp.regular {
                                Some(re) => match re.group1(origin) {
                                    Some(g) => chars_of(g.as_str()),
                                    None => Vec::new(),
                                },
                                None => Vec::new(),
                            }
                        };
                        assert(c@ == consumed_prefix(*mp, origin@));
                        if starts_with(o.as_slice(), c.as_slice()) {
                            Ok(join_rest(&value, &o, &c))
                        } else {
                            Err(SgError::FormatError)
                        }
                    }
                },
                None => Ok(value),
            },
            None => Ok(value),
        },
    }
}

/// Rewrites the path of `uri` as `modify_path` says, given the match that
/// routed the request. Without a rewrite the result is `Ok(None)`;
/// otherwise it is the rewritten URI, or an error when `uri` is not an
/// absolute URL (`FormatError`), when the path does not start with the part
/// to replace (`FormatError`), or when the rewritten URL is no valid URI
/// (`InternalError`).
pub fn http_common_modify_path(uri: &str, modify_path: &Option<SgHttpPathModifier>, matched_match_inst: Option<&SgHttpRouteMatchInst>) -> (r: Result<Option<String>, SgError>)
    requires
        modify_path_ready(*modify_path, opt_match(matched_match_inst)),
    ensures
        match modify_path_spec(uri@, *modify_path, opt_match(matched_match_inst)) {
            Ok(None) => r == Ok::<Option<String>, SgError>(None),
            Ok(Some(t)) => r matches Ok(Some(s)) && s@ == t,
            Err(e) => r == Err::<Option<String>, SgError>(e),
        },
{
    match modify_path {
        None => Ok(None),
        Some(md) => {
            let origin = match url_path(uri) {
                Some(p) => p,
                None => {
                    return Err(SgError::FormatError);
                },
            };
            let np = match new_path(origin.as_str(), md, matched_match_inst) {
                Ok(p) => p,
                Err(e) => {
                    return Err(e);
                },
            };
            let nps = string_of(np.as_slice());
            let with_path = match url_with_path(uri, nps.as_str()) {
                Some(u) => u,
                None => {
                    return Err(SgError::FormatError);
                },
            };
            match http_uri_text(with_path.as_str()) {
                Some(t) => Ok(Some(t)),
                None => Err(SgError::InternalError),
            }
        },
    }
}

/// The filter definitions a configuration can name, each under its code.
#[derive(Debug)]
pub struct SgFilterDefs<D> {
    defs: Vec<(String, D)>,
}

impl<D> SgFilterDefs<D> {
    /// No code is defined twice.
    pub closed spec fn wf(&self) -> bool {
        keys_distinct(self.defs@)
    }

    /// The definitions, by code.
    pub closed spec fn defs_map(&self) -> Map<Seq<char>, D> {
        entries_map(self.defs@)
    }

    /// The definitions given, in order, a later one of the same code in
    /// place of an earlier one.
    pub fn init_filter_defs(defs: Vec<(String, D)>) -> (r: Self)
        ensures
            r.wf(),
            r.defs_map() == put_defs(Map::empty(), defs@),
    {
        let mut r = SgFilterDefs { defs: Vec::new() };
        assert(r.defs_map() =~= Map::<Seq<char>, D>::empty());
        let ghost d0 = defs@;
        let mut rest = defs;
        while rest.len() > 0
            invariant
                r.wf(),
                d0.len() >= rest@.len(),
                rest@ == d0.skip(d0.len() - rest@.len()),
                r.defs_map() == put_defs(Map::empty(), d0.take(d0.len() - rest@.len())),
            decreases rest@.len(),
        {
            let ghost done = d0.len() - rest@.len();
            let (code, def) = rest.remove(0);
            proof {
                assert(d0.take(done + 1).drop_last() =~= d0.take(done));
                assert(d0[done] == (code, def));
            }
            r.register_filter_def(code, def);
            assert(rest@ =~= d0.skip(done + 1));
        }
        proof {
            assert(d0.take(d0.len() as int) =~= d0);
        }
        r
    }

    /// Defines the filter `code`, in place of any definition it had.
    pub fn register_filter_def(&mut self, code: String, filter_def: D)
        requires
            old(self).wf(),
        ensures
            final(self).wf(),
            final(self).defs_map() == old(self).defs_map().insert(code@, filter_def),
    {
        let _ = put_key(&mut self.defs, code, filter_def);
    }

    /// The definition of the filter `code`; a code that is not defined is a
    /// `FormatError`.
    pub fn get_filter_def(&self, code: &str) -> (r: Result<&D, SgError>)
        requires
            self.wf(),
        ensures
            match r {
                Ok(d) => self.defs_map().contains_key(code@) && *d == self.defs_map()[code@],
                Err(e) => !self.defs_map().contains_key(code@) && e == SgError::FormatError,
            },
    {
        match find_key(&self.defs, code) {
            Some(i) => Ok(&self.defs[i].1),
            None => Err(SgError::FormatError),
        }
    }
}

/// The map with the definitions put in, in order.
pub open spec fn put_defs<D>(m: Map<Seq<char>, D>, defs: Seq<(String, D)>) -> Map<Seq<char>, D>
    decreases defs.len(),
{
    if defs.len() == 0 {
        m
    } else {
        put_defs(m, defs.drop_last()).insert(defs.last().0@, defs.last().1)
    }
}

/// What a filter is initialized with: the gateway it belongs to and its
/// parameters, the route rules it applies to, and the level it is attached
/// to.
#[derive(Debug, Clone)]
pub struct SgPluginFilterInitDto {
    pub gateway_name: String,
    pub gateway_parameters: SgParameters,
    pub http_route_rules: Vec<SgHttpRouteRule>,
    pub attached_level: SgAttachedLevel,
}

/// The rules of the routes, route by route.
pub open spec fn rules_of_routes(routes: Seq<SgHttpRoute>) -> Seq<SgHttpRouteRule>
    decreases routes.len(),
{
    if routes.len() == 0 {
        Seq::empty()
    } else {
        rules_of_routes(routes.drop_last()) + match routes.last().rules {
            Some(rs) => rs@,
            None => Seq::empty(),
        }
    }
}

/// Two rules that differ at most in their backends.
pub open spec fn same_but_backends(a: SgHttpRouteRule, b: SgHttpRouteRule) -> bool {
    a.matches == b.matches && a.filters == b.filters && a.timeout_ms == b.timeout_ms
}

/// Whether each rule is a copy of the corresponding one.
pub open spec fn rules_cloned(from: Seq<SgHttpRouteRule>, to: Seq<SgHttpRouteRule>) -> bool {
    &&& to.len() == from.len()
    &&& forall|i: int| 0 <= i < from.len() ==> cloned(from[i], #[trigger] to[i])
}

/// Copies of the rules, appended to `out`.
fn push_rule_copies(out: &mut Vec<SgHttpRouteRule>, rules: &Vec<SgHttpRouteRule>)
    ensures
        final(out)@.len() == old(out)@.len() + rules@.len(),
        forall|i: int| 0 <= i < old(out)@.len() ==> final(out)@[i] == old(out)@[i],
        forall|i: int| 0 <= i < rules@.len() ==> cloned(rules@[i], #[trigger] final(out)@[old(out)@.len() + i]),
{
    let ghost o0 = out@;
    let mut i: usize = 0;
    while i < rules.len()
        invariant
            i <= rules@.len(),
            out@.len() == o0.len() + i,
            forall|k: int| 0 <= k < o0.len() ==> out@[k] == o0[k],
            forall|k: int| 0 <= k < i ==> cloned(rules@[k], #[trigger] out@[o0.len() + k]),
        decreases rules.len() - i,
    {
        out.push(rules[i].clone());
        i = i + 1;
    }
}

impl SgPluginFilterInitDto {
    /// For a filter of the whole gateway: the rules of all its routes.
    pub fn from_global(gateway_conf: &SgGateway, routes: &[SgHttpRoute]) -> (r: Self)
        ensures
            r.gateway_name == gateway_conf.name,
            r.gateway_parameters == gateway_conf.parameters,
            rules_cloned(rules_of_routes(routes@), r.http_route_rules@),
            r.attached_level == SgAttachedLevel::Gateway,
    {
        let mut rules: Vec<SgHttpRouteRule> = Vec::new();
        let mut i: usize = 0;
        while i < routes.len()
            invariant
                i <= routes@.len(),
                rules_cloned(rules_of_routes(routes@.take(i as int)), rules@),
            decreases routes.len() - i,
        {
            let ghost before = rules@;
            let ghost prev = rules_of_routes(routes@.take(i as int));
            if let Some(rs) = &routes[i].rules {
                push_rule_copies(&mut rules, rs);
            }
            proof {
                assert(routes@.take(i + 1).drop_last() =~= routes@.take(i as int));
                let now = rules_of_routes(routes@.take(i + 1));
                assert forall|k: int| 0 <= k < now.len() implies cloned(now[k], #[trigger] rules@[k]) by {
                    if k < prev.len() {
                        assert(rules@[k] == before[k]);
                    } else {
                        let j = k - prev.len();
                        assert(rules@[prev.len() + j] == rules@[k]);
                    }
                }
            }
            i = i + 1;
        }
        proof {
            assert(routes@.take(routes@.len() as int) =~= routes@);
        }
        SgPluginFilterInitDto {
            gateway_name: gateway_conf.name.clone(),
            gateway_parameters: gateway_conf.parameters.clone(),
            http_route_rules: rules,
            attached_level: SgAttachedLevel::Gateway,
        }
    }

    /// For a filter of a route: the route's rules.
    pub fn from_route(gateway_conf: &SgGateway, route: &SgHttpRoute) -> (r: Self)
        ensures
            r.gateway_name == gateway_conf.name,
            r.gateway_parameters == gateway_conf.parameters,
            rules_cloned(match route.rules {
                Some(rs) => rs@,
                None => Seq::<SgHttpRouteRule>::empty(),
            }, r.http_route_rules@),
            r.attached_level == SgAttachedLevel::HttpRoute,
    {
        let mut rules: Vec<SgHttpRouteRule> = Vec::new();
        if let Some(rs) = &route.rules {
            push_rule_copies(&mut rules, rs);
            proof {
                assert forall|i: int| 0 <= i < rs@.len() implies cloned(rs@[i], #[trigger] rules@[i]) by {
                    assert(rules@[0 + i] == rules@[i]);
                }
            }
        }
        SgPluginFilterInitDto {
            gateway_name: gateway_conf.name.clone(),
            gateway_parameters: gateway_conf.parameters.clone(),
            http_route_rules: rules,
            attached_level: SgAttachedLevel::HttpRoute,
        }
    }

    /// For a filter of a rule: that rule.
    pub fn from_rule(gateway_conf: &SgGateway, rule: &SgHttpRouteRule) -> (r: Self)
        ensures
            r.gateway_name == gateway_conf.name,
            r.gateway_parameters == gateway_conf.parameters,
            r.http_route_rules@.len() == 1,
            cloned(*rule, r.http_route_rules@[0]),
            r.attached_level == SgAttachedLevel::Rule,
    {
        let mut rules: Vec<SgHttpRouteRule> = Vec::new();
        rules.push(rule.clone());
        SgPluginFilterInitDto {
            gateway_name: gateway_conf.name.clone(),
            gateway_parameters: gateway_conf.parameters.clone(),
            http_route_rules: rules,
            attached_level: SgAttachedLevel::Rule,
        }
    }

    /// For a filter of a backend: the rule, with that backend as its only
    /// backend.
    pub fn from_backend(gateway_conf: &SgGateway, rule: &SgHttpRouteRule, backend: &SgBackendRef) -> (r: Self)
        ensures
            r.gateway_name == gateway_conf.name,
            r.gateway_parameters == gateway_conf.parameters,
            r.http_route_rules@.len() == 1,
            exists|c: SgHttpRouteRule| cloned(*rule, c) && #[trigger] same_but_backends(r.http_route_rules@[0], c),
            (r.http_route_rules@[0].backends matches Some(bs) && bs@.len() == 1 && cloned(*backend, bs@[0])),
            r.attached_level == SgAttachedLevel::Backend,
    {
        let mut rule = rule.clone();
        let ghost copy = rule;
        let mut backends: Vec<SgBackendRef> = Vec::new();
        backends.push(backend.clone());
        rule.backends = Some(backends);
        let mut rules: Vec<SgHttpRouteRule> = Vec::new();
        rules.push(rule);
        assert(same_but_backends(rules@[0], copy));
        SgPluginFilterInitDto {
            gateway_name: gateway_conf.name.clone(),
            gateway_parameters: gateway_conf.parameters.clone(),
            http_route_rules: rules,
            attached_level: SgAttachedLevel::Backend,
        }
    }
}

/// The text without one `/` at its end, if it has one there.
pub open spec fn without_trailing_slash(s: Seq<char>) -> Seq<char> {
    if s.len() > 0 && s[s.len() - 1] == '/' {
        s.take(s.len() - 1)
    } else {
        s
    }
}

/// The text without one `/` at its start, if it has one there.
pub open spec fn without_leading_slash(s: Seq<char>) -> Seq<char> {
    if s.len() > 0 && s[0] == '/' {
        s.skip(1)
    } else {
        s
    }
}

/// Joining a replacement with the rest of a path puts exactly one `/` at
/// the junction: when the rest is not empty, the result is the replacement
/// without a trailing `/`, one `/`, and the rest without a leading `/`;
/// when the rest is empty, it is the replacement.
pub proof fn lemma_join_path_one_slash(value: Seq<char>, rest: Seq<char>)
    ensures
        rest.len() == 0 ==> join_path(value, rest) == value,
        rest.len() > 0 ==> join_path(value, rest) == without_trailing_slash(value) + seq!['/'] + without_leading_slash(rest),
{
    if rest.len() > 0 {
        let v0 = without_trailing_slash(value);
        let r0 = without_leading_slash(rest);
        if value.len() > 0 && value.last() == '/' {
            assert(value =~= v0 + seq!['/']);
        }
        if rest[0] == '/' {
            assert(rest =~= seq!['/'] + r0);
        }
        assert(join_path(value, rest) =~= v0 + seq!['/'] + r0);
    }
}

/// A prefix replacement after a prefix match replaces the matched prefix
/// of the path by the value, with exactly one `/` between the value and
/// the rest of the path when that rest is not empty.
pub proof fn lemma_prefix_replacement(origin: Seq<char>, md: SgHttpPathModifier, m: SgHttpRouteMatchInst, mp: SgHttpPathMatchInst)
    requires
        md.kind == SgHttpPathModifierType::ReplacePrefixMatch,
        m.path == Some(mp),
        mp.kind == SgHttpPathMatchType::Prefix,
        mp.value@.len() <= origin.len(),
        origin.take(mp.value@.len() as int) == mp.value@,
    ensures
        ({
            let rest = origin.skip(mp.value@.len() as int);
            &&& rest.len() == 0 ==> new_path_spec(origin, md, Some(m)) == Ok::<Seq<char>, SgError>(md.value@)
            &&& rest.len() > 0 ==> new_path_spec(origin, md, Some(m))
                == Ok::<Seq<char>, SgError>(without_trailing_slash(md.value@) + seq!['/'] + without_leading_slash(rest))
        }),
{
    assert(starts_with_spec(origin, mp.value@));
    lemma_join_path_one_slash(md.value@, origin.skip(mp.value@.len() as int));
}

/// The other rewrites of a path: a full replacement gives the value; a
/// prefix replacement without a matched path condition, or after an exact
/// path match, gives the value; and a prefix replacement after a prefix
/// match that the path does not start with is a `FormatError`.
pub proof fn lemma_other_replacements(origin: Seq<char>, md: SgHttpPathModifier, matched: Option<SgHttpRouteMatchInst>)
    ensures
        md.kind == SgHttpPathModifierType::ReplaceFullPath ==> new_path_spec(origin, md, matched) == Ok::<Seq<char>, SgError>(md.value@),
        md.kind == SgHttpPathModifierType::ReplacePrefixMatch && (matched is None || matched->0.path is None)
            ==> new_path_spec(origin, md, matched) == Ok::<Seq<char>, SgError>(md.value@),
{
}

/// A prefix replacement after an exact path match gives the value, and
/// one after a prefix match that the path does not start with is a
/// `FormatError`.
pub proof fn lemma_prefix_replacement_cases(origin: Seq<char>, md: SgHttpPathModifier, m: SgHttpRouteMatchInst, mp: SgHttpPathMatchInst)
    requires
        md.kind == SgHttpPathModifierType::ReplacePrefixMatch,
        m.path == Some(mp),
    ensures
        mp.kind == SgHttpPathMatchType::Exact ==> new_path_spec(origin, md, Some(m)) == Ok::<Seq<char>, SgError>(md.value@),
        mp.kind == SgHttpPathMatchType::Prefix && !(mp.value@.len() <= origin.len() && origin.take(mp.value@.len() as int) == mp.value@)
            ==> new_path_spec(origin, md, Some(m)) == Err::<Seq<char>, SgError>(SgError::FormatError),
{
    if mp.kind == SgHttpPathMatchType::Prefix && !(mp.value@.len() <= origin.len() && origin.take(mp.value@.len() as int) == mp.value@) {
        assert(!starts_with_spec(origin, mp.value@));
    }
}

} // verus!
