//! Gateway and route configuration read from Kubernetes gateway API
//! objects: which objects the gateway supports, what they must hold, and
//! how their fields become gateway, listener, route and filter settings.
//! The objects, the TLS secrets they refer to and the filter resources are
//! fetched from the cluster outside; here they are plain values.
use vstd::prelude::*;

use crate::config::gateway_dto::{SgGateway, SgListener, SgParameters, SgProtocol, SgTlsConfig, SgTlsMode};
use crate::config::k8s_crd::{namespace_or_default, opt_seq, targets_spec, K8sSgFilterSpecTargetRef};
use crate::config::http_route_dto::{SgBackendRef, SgHttpHeaderMatch, SgHttpPathMatch, SgHttpQueryMatch, SgHttpRoute, SgHttpRouteMatch, SgHttpRouteRule};
use crate::config::plugin_filter_dto::{SgRouteFilter, SgRouteFilterSpec};
use crate::instance::{SgHttpHeaderMatchType, SgHttpPathMatchType, SgHttpQueryMatchType};
use crate::error::SgError;
use crate::keyed::{entries_map, find_key, keys_distinct, put_key};
use crate::plugins::filters::header_modifier::{self, SgFilterHeaderModifier, SgFilterHeaderModifierKind};
use crate::plugins::filters::redirect::{self, SgFilterRedirect};
use crate::plugins::filters::rewrite::{self, SgFilterRewrite};
use crate::plugins::filters::{SgHttpPathModifier, SgHttpPathModifierType};
use crate::text::{chars_of, seq_eq, to_lowercase, unicode_lower};

verus! {

/* ------------------------------------------------------------------------
   Filter resources
   ------------------------------------------------------------------------ */

/// A filter listed by a filter resource: its code, name and settings (JSON
/// text).
#[derive(Debug, Clone)]
pub struct K8sSgFilterSpecFilter {
    pub code: String,
    pub name: Option<String>,
    pub enable: bool,
    pub config: String,
}

/// A filter resource: the filters it lists and the objects they apply to.
#[derive(Debug, Clone)]
pub struct K8sSgFilterSpec {
    pub filters: Vec<K8sSgFilterSpecFilter>,
    pub target_refs: Vec<K8sSgFilterSpecTargetRef>,
}

/// Whether one of the resource's targets names the object.
pub open spec fn resource_targets(f: K8sSgFilterSpec, kind: Seq<char>, name: Seq<char>, namespace: Option<Seq<char>>) -> bool {
    exists|i: int| 0 <= i < f.target_refs@.len() && targets_spec(#[trigger] f.target_refs@[i], kind, name, namespace)
}

/// The filters of the resources that target the object, resource by
/// resource, in order.
pub open spec fn targeting_filters(objs: Seq<K8sSgFilterSpec>, kind: Seq<char>, name: Seq<char>, namespace: Option<Seq<char>>) -> Seq<K8sSgFilterSpecFilter>
    decreases objs.len(),
{
    if objs.len() == 0 {
        Seq::empty()
    } else {
        let rest = targeting_filters(objs.drop_last(), kind, name, namespace);
        if resource_targets(objs.last(), kind, name, namespace) {
            rest + objs.last().filters@
        } else {
            rest
        }
    }
}

/// A configured filter made from a resource's filter: same code and name,
/// its settings as JSON text.
pub open spec fn filter_from_resource(out: SgRouteFilter, f: K8sSgFilterSpecFilter) -> bool {
    &&& out.code == f.code
    &&& out.name == f.name
    &&& out.spec == SgRouteFilterSpec::Json(f.config)
}

/// The filters the resources attach to the object: none when no resource
/// targets it.
pub open spec fn filters_attached(r: Option<Vec<SgRouteFilter>>, objs: Seq<K8sSgFilterSpec>, kind: Seq<char>, name: Seq<char>, namespace: Option<Seq<char>>) -> bool {
    let fs = targeting_filters(objs, kind, name, namespace);
    if fs.len() == 0 {
        r is None
    } else {
        r matches Some(v) && v@.len() == fs.len() && forall|i: int| 0 <= i < fs.len() ==> #[trigger] filter_from_resource(v@[i], fs[i])
    }
}

/// A copy of an optional string.
fn copy_opt(s: &Option<String>) -> (r: Option<String>)
    ensures
        r == *s,
{
    match s {
        Some(x) => Some(x.clone()),
        None => None,
    }
}

/// Whether one of the resource's targets names the object.
fn resource_targets_exec(f: &K8sSgFilterSpec, kind: &str, name: &str, namespace: &Option<String>) -> (r: bool)
    ensures
        r == resource_targets(*f, kind@, name@, opt_seq(*namespace)),
{
    let mut i: usize = 0;
    while i < f.target_refs.len()
        invariant
            i <= f.target_refs@.len(),
            forall|j: int| 0 <= j < i ==> !targets_spec(#[trigger] f.target_refs@[j], kind@, name@, opt_seq(*namespace)),
        decreases f.target_refs.len() - i,
    {
        if f.target_refs[i].targets(kind, name, namespace) {
            return true;
        }
        i = i + 1;
    }
    false
}

/// The filters that the filter resources attach to the object of this kind,
/// name and namespace (see [`filters_attached`]).
pub fn get_filters_from_cdr(objs: &Vec<K8sSgFilterSpec>, kind: &str, name: &str, namespace: &Option<String>) -> (r: Option<Vec<SgRouteFilter>>)
    ensures
        filters_attached(r, objs@, kind@, name@, opt_seq(*namespace)),
{
    let mut out: Vec<SgRouteFilter> = Vec::new();
    let mut i: usize = 0;
    while i < objs.len()
        invariant
            i <= objs@.len(),
            out@.len() == targeting_filters(objs@.take(i as int), kind@, name@, opt_seq(*namespace)).len(),
            forall|k: int| 0 <= k < out@.len() ==> #[trigger] filter_from_resource(out@[k], targeting_filters(objs@.take(i as int), kind@, name@, opt_seq(*namespace))[k]),
        decreases objs.len() - i,
    {
        let ghost before = targeting_filters(objs@.take(i as int), kind@, name@, opt_seq(*namespace));
        proof {
            assert(objs@.take(i + 1).drop_last() =~= objs@.take(i as int));
            assert(objs@.take(i + 1).last() == objs@[i as int]);
        }
        if resource_targets_exec(&objs[i], kind, name, namespace) {
            let fs = &objs[i].filters;
            let ghost base = out@.len();
            let mut j: usize = 0;
            while j < fs.len()
                invariant
                    j <= fs@.len(),
                    base == before.len(),
                    out@.len() == base + j,
                    forall|k: int| 0 <= k < base ==> #[trigger] filter_from_resource(out@[k], before[k]),
                    forall|k: int| 0 <= k < j ==> #[trigger] filter_from_resource(out@[base + k], fs@[k]),
                decreases fs.len() - j,
            {
                let f = &fs[j];
                out.push(SgRouteFilter { code: f.code.clone(), name: copy_opt(&f.name), spec: SgRouteFilterSpec::Json(f.config.clone()) });
                proof {
                    assert(filter_from_resource(out@[base + j], fs@[j as int]));
                }
                j = j + 1;
            }
            proof {
                let now = targeting_filters(objs@.take(i + 1), kind@, name@, opt_seq(*namespace));
                assert(now == before + fs@);
                assert forall|k: int| 0 <= k < out@.len() implies #[trigger] filter_from_resource(out@[k], now[k]) by {
                    if k >= base {
                        assert(filter_from_resource(out@[base + (k - base)], fs@[k - base]));
                    }
                }
            }
        }
        i = i + 1;
    }
    proof {
        assert(objs@.take(objs@.len() as int) =~= objs@);
    }
    if out.len() == 0 {
        None
    } else {
        Some(out)
    }
}

/* ------------------------------------------------------------------------
   Gateways
   ------------------------------------------------------------------------ */

/// A reference to the secret that holds a listener's certificate.
#[derive(Debug, Clone)]
pub struct K8sSecretRef {
    pub name: String,
    pub namespace: Option<String>,
}

/// The TLS settings of a gateway listener.
#[derive(Debug, Clone)]
pub struct K8sGatewayTls {
    pub mode: Option<String>,
    /// Whether implementation-specific options are given.
    pub has_options: bool,
    pub certificate_refs: Option<Vec<K8sSecretRef>>,
}

/// A listener of a gateway object.
#[derive(Debug, Clone)]
pub struct K8sListener {
    pub name: String,
    pub hostname: Option<String>,
    pub port: u16,
    pub protocol: String,
    pub tls: Option<K8sGatewayTls>,
}

/// A gateway object: its name, namespace and annotations, its gateway
/// class, its identity and generation, whether it asks for addresses, and
/// its listeners.
#[derive(Debug, Clone)]
pub struct K8sGateway {
    pub name: Option<String>,
    pub namespace: Option<String>,
    /// The name of the gateway class the gateway belongs to.
    pub class_name: String,
    /// The object's unique id.
    pub uid: Option<String>,
    /// The generation of the object's spec.
    pub generation: Option<i64>,
    /// The annotations, each key once.
    pub annotations: Option<Vec<(String, String)>>,
    pub has_addresses: bool,
    pub listeners: Vec<K8sListener>,
}

/// The certificate and key of a TLS listener, as the secret gives them
/// (written out as JSON text).
#[derive(Debug, Clone)]
pub struct K8sTlsSecret {
    pub key: String,
    pub cert: String,
}

pub open spec fn http_text() -> Seq<char> {
    seq!['h', 't', 't', 'p']
}

pub open spec fn https_text() -> Seq<char> {
    seq!['h', 't', 't', 'p', 's']
}

pub open spec fn tls_text() -> Seq<char> {
    seq!['t', 'l', 's']
}

pub open spec fn terminate_text() -> Seq<char> {
    seq!['t', 'e', 'r', 'm', 'i', 'n', 'a', 't', 'e']
}

/// Whether the listener's protocol is HTTP or HTTPS, in any case.
pub open spec fn protocol_supported(l: K8sListener) -> bool {
    unicode_lower(l.protocol@) == http_text() || unicode_lower(l.protocol@) == https_text()
}

/// Whether the listener asks for a TLS mode other than terminating.
pub open spec fn tls_mode_refused(l: K8sListener) -> bool {
    l.tls matches Some(t) && t.mode matches Some(m) && unicode_lower(m@) != terminate_text()
}

/// Whether the listener's TLS settings carry options.
pub open spec fn tls_has_options(l: K8sListener) -> bool {
    l.tls matches Some(t) && t.has_options
}

/// Whether an HTTPS or TLS listener lacks TLS settings.
pub open spec fn tls_missing(l: K8sListener) -> bool {
    (unicode_lower(l.protocol@) == https_text() || unicode_lower(l.protocol@) == tls_text()) && l.tls is None
}

/// Whether the listener's TLS settings name no certificate.
pub open spec fn certificate_missing(l: K8sListener) -> bool {
    l.tls matches Some(t) && (t.certificate_refs is None || t.certificate_refs->0@.len() == 0)
}

/// Whether some listener has the property.
pub open spec fn some_listener(g: K8sGateway, p: spec_fn(K8sListener) -> bool) -> bool {
    exists|i: int| 0 <= i < g.listeners@.len() && p(#[trigger] g.listeners@[i])
}

/// Why a gateway object is refused, checked in this order: a listener
/// hostname, addresses, a protocol other than HTTP and HTTPS, a TLS mode
/// other than terminate, and TLS options are not supported
/// (`NotImplemented`); a missing name, an HTTPS listener without TLS
/// settings and TLS settings without a certificate are malformed
/// (`FormatError`).
pub open spec fn gateway_refusal(g: K8sGateway) -> Option<SgError> {
    if some_listener(g, |l: K8sListener| l.hostname is Some) {
        Some(SgError::NotImplemented)
    } else if g.has_addresses {
        Some(SgError::NotImplemented)
    } else if some_listener(g, |l: K8sListener| !protocol_supported(l)) {
        Some(SgError::NotImplemented)
    } else if some_listener(g, |l: K8sListener| tls_mode_refused(l)) {
        Some(SgError::NotImplemented)
    } else if some_listener(g, |l: K8sListener| tls_has_options(l)) {
        Some(SgError::NotImplemented)
    } else if g.name is None {
        Some(SgError::FormatError)
    } else if some_listener(g, |l: K8sListener| tls_missing(l)) {
        Some(SgError::FormatError)
    } else if some_listener(g, |l: K8sListener| certificate_missing(l)) {
        Some(SgError::FormatError)
    } else {
        None
    }
}

/// The checks of one listener, as plain flags.
struct ListenerChecks {
    hostname: bool,
    unsupported: bool,
    mode_refused: bool,
    options: bool,
    tls_missing: bool,
    certificate_missing: bool,
}

/// Whether the text is exactly the given characters.
fn text_is(s: &str, lit: &[char]) -> (r: bool)
    ensures
        r == (s@ == lit@),
{
    let c = chars_of(s);
    seq_eq(c.as_slice(), lit)
}

/// The checks of one listener.
fn listener_checks(l: &K8sListener) -> (r: ListenerChecks)
    ensures
        r.hostname == (l.hostname is Some),
        r.unsupported == !protocol_supported(*l),
        r.mode_refused == tls_mode_refused(*l),
        r.options == tls_has_options(*l),
        r.tls_missing == tls_missing(*l),
        r.certificate_missing == certificate_missing(*l),
{
    let http: [char; 4] = ['h', 't', 't', 'p'];
    let https: [char; 5] = ['h', 't', 't', 'p', 's'];
    let tls: [char; 3] = ['t', 'l', 's'];
    let terminate: [char; 9] = ['t', 'e', 'r', 'm', 'i', 'n', 'a', 't', 'e'];
    assert(http@ == http_text());
    assert(https@ == https_text());
    assert(tls@ == tls_text());
    assert(terminate@ == terminate_text());
    let p = to_lowercase(l.protocol.as_str());
    let is_http = text_is(p.as_str(), http.as_slice());
    let is_https = text_is(p.as_str(), https.as_slice());
    let is_tls = text_is(p.as_str(), tls.as_slice());
    let (mode_refused, options, certificate_missing) = match &l.tls {
        Some(t) => {
            let refused = match &t.mode {
                Some(m) => {
                    let lm = to_lowercase(m.as_str());
                    !text_is(lm.as_str(), terminate.as_slice())
                },
                None => false,
            };
            let missing = match &t.certificate_refs {
                Some(refs) => refs.len() == 0,
                None => true,
            };
            (refused, t.has_options, missing)
        },
        None => (false, false, false),
    };
    ListenerChecks {
        hostname: l.hostname.is_some(),
        unsupported: !(is_http || is_https),
        mode_refused,
        options,
        tls_missing: (is_https || is_tls) && l.tls.is_none(),
        certificate_missing,
    }
}

/// Whether the gateway object is supported and well formed (see
/// [`gateway_refusal`]).
pub fn check_gateway(g: &K8sGateway) -> (r: Result<(), SgError>)
    ensures
        match gateway_refusal(*g) {
            Some(e) => r == Err::<(), SgError>(e),
            None => r is Ok,
        },
{
    let mut hostname = false;
    let mut unsupported = false;
    let mut mode_refused = false;
    let mut options = false;
    let mut missing_tls = false;
    let mut missing_certificate = false;
    let mut i: usize = 0;
    while i < g.listeners.len()
        invariant
            i <= g.listeners@.len(),
            hostname == exists|j: int| 0 <= j < i && (#[trigger] g.listeners@[j]).hostname is Some,
            unsupported == exists|j: int| 0 <= j < i && !protocol_supported(#[trigger] g.listeners@[j]),
            mode_refused == exists|j: int| 0 <= j < i && tls_mode_refused(#[trigger] g.listeners@[j]),
            options == exists|j: int| 0 <= j < i && tls_has_options(#[trigger] g.listeners@[j]),
            missing_tls == exists|j: int| 0 <= j < i && tls_missing(#[trigger] g.listeners@[j]),
            missing_certificate == exists|j: int| 0 <= j < i && certificate_missing(#[trigger] g.listeners@[j]),
        decreases g.listeners.len() - i,
    {
        let c = listener_checks(&g.listeners[i]);
        hostname = hostname || c.hostname;
        unsupported = unsupported || c.unsupported;
        mode_refused = mode_refused || c.mode_refused;
        options = options || c.options;
        missing_tls = missing_tls || c.tls_missing;
        missing_certificate = missing_certificate || c.certificate_missing;
        i = i + 1;
    }
    proof {
        let ls = g.listeners@;
        assert(hostname == some_listener(*g, |l: K8sListener| l.hostname is Some)) by {
            if hostname {
                let j = choose|j: int| 0 <= j < ls.len() && (#[trigger] ls[j]).hostname is Some;
                assert((|l: K8sListener| l.hostname is Some)(ls[j]));
            }
        }
        assert(unsupported == some_listener(*g, |l: K8sListener| !protocol_supported(l))) by {
            if unsupported {
                let j = choose|j: int| 0 <= j < ls.len() && !protocol_supported(#[trigger] ls[j]);
                assert((|l: K8sListener| !protocol_supported(l))(ls[j]));
            }
        }
        assert(mode_refused == some_listener(*g, |l: K8sListener| tls_mode_refused(l))) by {
            if mode_refused {
                let j = choose|j: int| 0 <= j < ls.len() && tls_mode_refused(#[trigger] ls[j]);
                assert((|l: K8sListener| tls_mode_refused(l))(ls[j]));
            }
        }
        assert(options == some_listener(*g, |l: K8sListener| tls_has_options(l))) by {
            if options {
                let j = choose|j: int| 0 <= j < ls.len() && tls_has_options(#[trigger] ls[j]);
                assert((|l: K8sListener| tls_has_options(l))(ls[j]));
            }
        }
        assert(missing_tls == some_listener(*g, |l: K8sListener| tls_missing(l))) by {
            if missing_tls {
                let j = choose|j: int| 0 <= j < ls.len() && tls_missing(#[trigger] ls[j]);
                assert((|l: K8sListener| tls_missing(l))(ls[j]));
            }
        }
        assert(missing_certificate == some_listener(*g, |l: K8sListener| certificate_missing(l))) by {
            if missing_certificate {
                let j = choose|j: int| 0 <= j < ls.len() && certificate_missing(#[trigger] ls[j]);
                assert((|l: K8sListener| certificate_missing(l))(ls[j]));
            }
        }
    }
    if hostname || g.has_addresses || unsupported || mode_refused || options {
        return Err(SgError::NotImplemented);
    }
    if g.name.is_none() || missing_tls || missing_certificate {
        return Err(SgError::FormatError);
    }
    Ok(())
}

/// The value of an annotation, if the object has it.
pub open spec fn annotation(ann: Option<Vec<(String, String)>>, key: Seq<char>) -> Option<String> {
    match ann {
        Some(a) => if entries_map(a@).contains_key(key) {
            Some(entries_map(a@)[key])
        } else {
            None
        },
        None => None,
    }
}

pub open spec fn redis_url_key() -> Seq<char> {
    seq!['r', 'e', 'd', 'i', 's', '_', 'u', 'r', 'l']
}

pub open spec fn log_level_key() -> Seq<char> {
    seq!['l', 'o', 'g', '_', 'l', 'e', 'v', 'e', 'l']
}

pub open spec fn gateway_kind() -> Seq<char> {
    seq!['g', 'a', 't', 'e', 'w', 'a', 'y']
}

/// The listener made from a supported listener object: its name and port,
/// HTTP or HTTPS as its protocol says, and for TLS the secret's key and
/// certificate, with the terminate mode when a mode is given (the default,
/// passthrough, otherwise).
pub open spec fn listener_converted(out: SgListener, l: K8sListener, secret: Option<K8sTlsSecret>) -> bool {
    &&& out.name == Some(l.name)
    &&& out.ip is None
    &&& out.port == l.port
    &&& out.protocol == (if unicode_lower(l.protocol@) == http_text() { SgProtocol::Http } else { SgProtocol::Https })
    &&& out.hostname is None
    &&& match l.tls {
        None => out.tls is None,
        Some(t) => out.tls matches Some(o) && secret matches Some(s) && o.key == s.key && o.cert == s.cert
            && o.mode == (if t.mode is Some { SgTlsMode::Terminate } else { SgTlsMode::Passthrough }),
    }
}

/// The gateway made from a supported gateway object: named
/// `namespace.name` (namespace `default` when none is given), its Redis URL
/// and log level taken from the annotations of those names, its listeners
/// converted one by one, and the filters that filter resources attach to it.
pub open spec fn gateway_converted(gw: SgGateway, g: K8sGateway, secrets: Seq<Option<K8sTlsSecret>>, objs: Seq<K8sSgFilterSpec>) -> bool {
    &&& gw.name@ == namespace_or_default(opt_seq(g.namespace)) + seq!['.'] + g.name->0@
    &&& gw.parameters.redis_url == annotation(g.annotations, redis_url_key())
    &&& gw.parameters.log_level == annotation(g.annotations, log_level_key())
    &&& gw.parameters.lang is None
    &&& gw.parameters.ignore_tls_verification is None
    &&& gw.listeners@.len() == g.listeners@.len()
    &&& forall|i: int| 0 <= i < g.listeners@.len() ==> #[trigger] listener_converted(gw.listeners@[i], g.listeners@[i], secrets[i])
    &&& filters_attached(gw.filters, objs, gateway_kind(), g.name->0@, opt_seq(g.namespace))
}

/// What the gateway object needs from outside: a secret for every TLS
/// listener, and annotations without repeated keys.
pub open spec fn gateway_inputs_ok(g: K8sGateway, secrets: Seq<Option<K8sTlsSecret>>) -> bool {
    &&& secrets.len() == g.listeners@.len()
    &&& forall|i: int| 0 <= i < secrets.len() ==> (#[trigger] g.listeners@[i]).tls is Some ==> secrets[i] is Some
    &&& g.annotations matches Some(a) ==> keys_distinct(a@)
}

/// The value of an annotation.
fn annotation_value(ann: &Option<Vec<(String, String)>>, key: &str) -> (r: Option<String>)
    requires
        ann matches Some(a) ==> keys_distinct(a@),
    ensures
        r == annotation(*ann, key@),
{
    match ann {
        Some(a) => match find_key(a, key) {
            Some(i) => {
                proof {
                    assert(entries_map(a@).contains_key(key@));
                }
                Some(a[i].1.clone())
            },
            None => None,
        },
        None => None,
    }
}

/// Converts one listener of a supported gateway object.
fn convert_listener(l: &K8sListener, secret: &Option<K8sTlsSecret>) -> (r: SgListener)
    requires
        protocol_supported(*l),
        !tls_mode_refused(*l),
        l.tls is Some ==> secret is Some,
    ensures
        listener_converted(r, *l, *secret),
{
    let http: [char; 4] = ['h', 't', 't', 'p'];
    assert(http@ == http_text());
    let p = to_lowercase(l.protocol.as_str());
    let protocol = if text_is(p.as_str(), http.as_slice()) {
        SgProtocol::Http
    } else {
        SgProtocol::Https
    };
    let tls = match (&l.tls, secret) {
        (Some(t), Some(s)) => {
            let mode = match SgTlsMode::from(copy_opt(&t.mode)) {
                Some(m) => m,
                None => SgTlsMode::Passthrough,
            };
            Some(SgTlsConfig { mode, key: s.key.clone(), cert: s.cert.clone() })
        },
        _ => None,
    };
    SgListener { name: Some(l.name.clone()), ip: None, port: l.port, protocol, tls, hostname: None }
}

/// Converts a gateway object into a gateway (see [`gateway_converted`]),
/// or says why it is refused (see [`gateway_refusal`]). `secrets` holds,
/// for each listener, the secret of its first certificate reference;
/// `filter_objs` are the filter resources of the cluster.
pub fn gateway_from_k8s(g: &K8sGateway, secrets: &Vec<Option<K8sTlsSecret>>, filter_objs: &Vec<K8sSgFilterSpec>) -> (r: Result<SgGateway, SgError>)
    requires
        gateway_inputs_ok(*g, secrets@),
    ensures
        match gateway_refusal(*g) {
            Some(e) => r == Err::<SgGateway, SgError>(e),
            None => r matches Ok(gw) && gateway_converted(gw, *g, secrets@, filter_objs@),
        },
{
    check_gateway(g)?;
    let name = match &g.name {
        Some(n) => n,
        None => {
            return Err(SgError::FormatError);
        },
    };
    proof {
        reveal_strlit("default");
        reveal_strlit(".");
        reveal_strlit("redis_url");
        reveal_strlit("log_level");
        reveal_strlit("gateway");
        assert("default"@ =~= seq!['d', 'e', 'f', 'a', 'u', 'l', 't']);
        assert("redis_url"@ =~= redis_url_key());
        assert("log_level"@ =~= log_level_key());
        assert("gateway"@ =~= gateway_kind());
        assert("."@ =~= seq!['.']);
    }
    let mut full_name = match &g.namespace {
        Some(ns) => ns.clone(),
        None => String::from_str("default"),
    };
    full_name.append(".");
    full_name.append(name.as_str());
    let parameters = SgParameters {
        redis_url: annotation_value(&g.annotations, "redis_url"),
        log_level: annotation_value(&g.annotations, "log_level"),
        lang: None,
        ignore_tls_verification: None,
    };
    let mut listeners: Vec<SgListener> = Vec::new();
    let mut i: usize = 0;
    while i < g.listeners.len()
        invariant
            i <= g.listeners@.len(),
            gateway_inputs_ok(*g, secrets@),
            gateway_refusal(*g) is None,
            listeners@.len() == i,
            forall|j: int| 0 <= j < i ==> #[trigger] listener_converted(listeners@[j], g.listeners@[j], secrets@[j]),
        decreases g.listeners.len() - i,
    {
        proof {
            let l = g.listeners@[i as int];
            if !protocol_supported(l) {
                assert((|x: K8sListener| !protocol_supported(x))(l));
            }
            if tls_mode_refused(l) {
                assert((|x: K8sListener| tls_mode_refused(x))(l));
            }
        }
        listeners.push(convert_listener(&g.listeners[i], &secrets[i]));
        i = i + 1;
    }
    let filters = get_filters_from_cdr(filter_objs, "gateway", name.as_str(), &g.namespace);
    Ok(SgGateway { name: full_name, parameters, listeners, filters })
}

/// Converts the gateway objects, each with the secrets of its listeners
/// (see [`gateway_from_k8s`]); the first object refused refuses them all.
pub fn process_gateway_config(gateway_objs: &Vec<(K8sGateway, Vec<Option<K8sTlsSecret>>)>, filter_objs: &Vec<K8sSgFilterSpec>) -> (r: Result<Vec<SgGateway>, SgError>)
    requires
        forall|i: int| 0 <= i < gateway_objs@.len() ==> gateway_inputs_ok((#[trigger] gateway_objs@[i]).0, gateway_objs@[i].1@),
    ensures
        match r {
            Ok(gws) => gws@.len() == gateway_objs@.len()
                && forall|i: int| 0 <= i < gateway_objs@.len() ==> gateway_refusal((#[trigger] gateway_objs@[i]).0) is None
                    && gateway_converted(gws@[i], gateway_objs@[i].0, gateway_objs@[i].1@, filter_objs@),
            Err(e) => exists|i: int| 0 <= i < gateway_objs@.len() && gateway_refusal((#[trigger] gateway_objs@[i]).0) == Some(e)
                && forall|j: int| 0 <= j < i ==> gateway_refusal((#[trigger] gateway_objs@[j]).0) is None,
        },
{
    let mut out: Vec<SgGateway> = Vec::new();
    let mut i: usize = 0;
    while i < gateway_objs.len()
        invariant
            i <= gateway_objs@.len(),
            forall|k: int| 0 <= k < gateway_objs@.len() ==> gateway_inputs_ok((#[trigger] gateway_objs@[k]).0, gateway_objs@[k].1@),
            out@.len() == i,
            forall|k: int| 0 <= k < i ==> gateway_refusal((#[trigger] gateway_objs@[k]).0) is None
                && gateway_converted(out@[k], gateway_objs@[k].0, gateway_objs@[k].1@, filter_objs@),
        decreases gateway_objs.len() - i,
    {
        let item = &gateway_objs[i];
        match gateway_from_k8s(&item.0, &item.1, filter_objs) {
            Ok(gw) => out.push(gw),
            Err(e) => {
                assert(gateway_refusal(gateway_objs@[i as int].0) == Some(e));
                return Err(e);
            },
        }
        i = i + 1;
    }
    Ok(out)
}

/* ------------------------------------------------------------------------
   Route filters of the gateway API
   ------------------------------------------------------------------------ */

/// A header name and value of a header modifier.
#[derive(Debug, Clone)]
pub struct K8sHttpHeader {
    pub name: String,
    pub value: String,
}

/// A request header modifier: headers to set, to add and to remove.
#[derive(Debug, Clone)]
pub struct K8sRequestHeaderModifier {
    pub set: Option<Vec<K8sHttpHeader>>,
    pub add: Option<Vec<K8sHttpHeader>>,
    pub remove: Option<Vec<String>>,
}

/// How a path is rewritten.
#[derive(Debug, Clone)]
pub enum K8sHttpPathModifier {
    ReplaceFullPath(String),
    ReplacePrefixMatch(String),
}

/// A redirect of the request.
#[derive(Debug, Clone)]
pub struct K8sRequestRedirect {
    pub scheme: Option<String>,
    pub hostname: Option<String>,
    pub path: Option<K8sHttpPathModifier>,
    pub port: Option<u16>,
    pub status_code: Option<u16>,
}

/// A rewrite of the request URL.
#[derive(Debug, Clone)]
pub struct K8sUrlRewrite {
    pub hostname: Option<String>,
    pub path: Option<K8sHttpPathModifier>,
}

/// A filter of a route rule or backend.
#[derive(Debug, Clone)]
pub enum K8sHttpRouteFilter {
    RequestHeaderModifier(K8sRequestHeaderModifier),
    RequestRedirect(K8sRequestRedirect),
    URLRewrite(K8sUrlRewrite),
    RequestMirror,
    ExtensionRef,
}

/// The headers a header modifier sets: those it adds, then those it sets,
/// a later one of the same name in place of an earlier one.
pub open spec fn header_sets(adds: Seq<K8sHttpHeader>, sets: Seq<K8sHttpHeader>) -> Map<Seq<char>, String> {
    put_headers(put_headers(Map::empty(), adds), sets)
}

/// The map with the headers put in, in order.
pub open spec fn put_headers(m: Map<Seq<char>, String>, hs: Seq<K8sHttpHeader>) -> Map<Seq<char>, String>
    decreases hs.len(),
{
    if hs.len() == 0 {
        m
    } else {
        put_headers(m, hs.drop_last()).insert(hs.last().name@, hs.last().value)
    }
}

/// The headers of an optional list, none when absent.
pub open spec fn headers_of(hs: Option<Vec<K8sHttpHeader>>) -> Seq<K8sHttpHeader> {
    match hs {
        Some(v) => v@,
        None => Seq::empty(),
    }
}

/// The path rewrite of the gateway API as the filters' own.
pub open spec fn path_modifier_converted(out: Option<SgHttpPathModifier>, p: Option<K8sHttpPathModifier>) -> bool {
    match p {
        None => out is None,
        Some(K8sHttpPathModifier::ReplaceFullPath(v)) => out matches Some(o) && o.kind == SgHttpPathModifierType::ReplaceFullPath && o.value == v,
        Some(K8sHttpPathModifier::ReplacePrefixMatch(v)) => out matches Some(o) && o.kind == SgHttpPathModifierType::ReplacePrefixMatch && o.value == v,
    }
}

/// Whether the filter is one the gateway supports (not a mirror or an
/// extension reference).
pub open spec fn route_filter_supported(f: K8sHttpRouteFilter) -> bool {
    !(f is RequestMirror) && !(f is ExtensionRef)
}

/// Whether all the listed filters are supported.
pub open spec fn route_filters_supported(fs: Option<Vec<K8sHttpRouteFilter>>) -> bool {
    fs matches Some(v) ==> forall|i: int| 0 <= i < v@.len() ==> route_filter_supported(#[trigger] v@[i])
}

/// The configured filter made from a supported filter of the gateway API:
/// a request header modifier (its adds and sets merged, none when there
/// are none), a redirect or a rewrite, with no name.
pub open spec fn route_filter_converted(out: SgRouteFilter, f: K8sHttpRouteFilter) -> bool {
    &&& out.name is None
    &&& match f {
        K8sHttpRouteFilter::RequestHeaderModifier(m) => {
            &&& out.code@ == header_modifier::CODE@
            &&& out.spec matches SgRouteFilterSpec::HeaderModifier(hm)
            &&& hm.kind == SgFilterHeaderModifierKind::Request
            &&& hm.remove == m.remove
            &&& {
                let sets = header_sets(headers_of(m.add), headers_of(m.set));
                if sets.dom().len() == 0 {
                    hm.sets is None
                } else {
                    hm.sets matches Some(v) && keys_distinct(v@) && entries_map(v@) == sets
                }
            }
        },
        K8sHttpRouteFilter::RequestRedirect(rd) => {
            &&& out.code@ == redirect::CODE@
            &&& out.spec matches SgRouteFilterSpec::Redirect(o)
            &&& o.scheme == rd.scheme
            &&& o.hostname == rd.hostname
            &&& path_modifier_converted(o.path, rd.path)
            &&& o.port == rd.port
            &&& o.status_code == rd.status_code
        },
        K8sHttpRouteFilter::URLRewrite(rw) => {
            &&& out.code@ == rewrite::CODE@
            &&& out.spec matches SgRouteFilterSpec::Rewrite(o)
            &&& o.hostname == rw.hostname
            &&& path_modifier_converted(o.path, rw.path)
        },
        _ => false,
    }
}

/// The configured filters made from the listed ones, one by one.
pub open spec fn route_filters_converted(out: Option<Vec<SgRouteFilter>>, fs: Option<Vec<K8sHttpRouteFilter>>) -> bool {
    match fs {
        None => out is None,
        Some(v) => out matches Some(o) && o@.len() == v@.len()
            && forall|i: int| 0 <= i < v@.len() ==> #[trigger] route_filter_converted(o@[i], v@[i]),
    }
}

/// Puts the headers into a header list without repeated names.
fn put_all_headers(out: &mut Vec<(String, String)>, hs: &Option<Vec<K8sHttpHeader>>)
    requires
        keys_distinct(old(out)@),
    ensures
        keys_distinct(final(out)@),
        entries_map(final(out)@) == put_headers(entries_map(old(out)@), headers_of(*hs)),
{
    if let Some(v) = hs {
        let ghost m0 = entries_map(out@);
        let mut i: usize = 0;
        while i < v.len()
            invariant
                i <= v@.len(),
                keys_distinct(out@),
                entries_map(out@) == put_headers(m0, v@.take(i as int)),
            decreases v.len() - i,
        {
            put_key(out, v[i].name.clone(), v[i].value.clone());
            proof {
                assert(v@.take(i + 1).drop_last() =~= v@.take(i as int));
            }
            i = i + 1;
        }
        proof {
            assert(v@.take(v@.len() as int) =~= v@);
        }
    } else {
        proof {
            assert(entries_map(out@) =~= put_headers(entries_map(out@), headers_of(*hs)));
        }
    }
}

/// The path rewrite of the gateway API as the filters' own.
fn convert_path_modifier(p: &Option<K8sHttpPathModifier>) -> (r: Option<SgHttpPathModifier>)
    ensures
        path_modifier_converted(r, *p),
{
    match p {
        Some(K8sHttpPathModifier::ReplaceFullPath(v)) => Some(SgHttpPathModifier { kind: SgHttpPathModifierType::ReplaceFullPath, value: v.clone() }),
        Some(K8sHttpPathModifier::ReplacePrefixMatch(v)) => Some(SgHttpPathModifier { kind: SgHttpPathModifierType::ReplacePrefixMatch, value: v.clone() }),
        None => None,
    }
}

/// Converts one supported filter of the gateway API.
fn convert_filter(f: K8sHttpRouteFilter) -> (r: SgRouteFilter)
    requires
        route_filter_supported(f),
    ensures
        route_filter_converted(r, f),
{
    match f {
        K8sHttpRouteFilter::RequestHeaderModifier(m) => {
            let mut sets: Vec<(String, String)> = Vec::new();
            proof {
                assert(entries_map(sets@) =~= Map::<Seq<char>, String>::empty());
            }
            put_all_headers(&mut sets, &m.add);
            put_all_headers(&mut sets, &m.set);
            proof {
                crate::keyed::lemma_entries_map_len(sets@);
            }
            let spec = SgFilterHeaderModifier {
                kind: SgFilterHeaderModifierKind::Request,
                sets: if sets.len() == 0 { None } else { Some(sets) },
                remove: m.remove,
            };
            SgRouteFilter { code: String::from_str(header_modifier::CODE), name: None, spec: SgRouteFilterSpec::HeaderModifier(spec) }
        },
        K8sHttpRouteFilter::RequestRedirect(rd) => {
            let spec = SgFilterRedirect {
                scheme: copy_opt(&rd.scheme),
                hostname: copy_opt(&rd.hostname),
                path: convert_path_modifier(&rd.path),
                port: rd.port,
                status_code: rd.status_code,
            };
            SgRouteFilter { code: String::from_str(redirect::CODE), name: None, spec: SgRouteFilterSpec::Redirect(spec) }
        },
        K8sHttpRouteFilter::URLRewrite(rw) => {
            let spec = SgFilterRewrite { hostname: copy_opt(&rw.hostname), path: convert_path_modifier(&rw.path) };
            SgRouteFilter { code: String::from_str(rewrite::CODE), name: None, spec: SgRouteFilterSpec::Rewrite(spec) }
        },
        _ => {
            assert(false);
            SgRouteFilter { code: String::new(), name: None, spec: SgRouteFilterSpec::Json(String::new()) }
        },
    }
}

/// Converts the filters of a route rule or backend (see
/// [`route_filter_converted`]).
pub fn convert_filters(filters: Option<Vec<K8sHttpRouteFilter>>) -> (r: Option<Vec<SgRouteFilter>>)
    requires
        route_filters_supported(filters),
    ensures
        route_filters_converted(r, filters),
{
    match filters {
        Some(v) => {
            let ghost v0 = v@;
            let mut rest = v;
            let mut out: Vec<SgRouteFilter> = Vec::new();
            while rest.len() > 0
                invariant
                    out@.len() + rest@.len() == v0.len(),
                    rest@ == v0.skip(out@.len() as int),
                    forall|k: int| 0 <= k < v0.len() ==> route_filter_supported(#[trigger] v0[k]),
                    forall|k: int| 0 <= k < out@.len() ==> #[trigger] route_filter_converted(out@[k], v0[k]),
                decreases rest@.len(),
            {
                let ghost n = out@.len();
                let f = rest.remove(0);
                assert(f == v0[n as int]);
                out.push(convert_filter(f));
                assert(rest@ =~= v0.skip(n as int + 1));
            }
            Some(out)
        },
        None => None,
    }
}

/* ------------------------------------------------------------------------
   HTTP routes
   ------------------------------------------------------------------------ */

/// The gateway a route attaches to.
#[derive(Debug, Clone)]
pub struct K8sParentRef {
    pub name: String,
    pub namespace: Option<String>,
}

/// A path condition of the gateway API.
#[derive(Debug, Clone)]
pub enum K8sHttpPathMatch {
    Exact(String),
    PathPrefix(String),
    RegularExpression(String),
}

/// A header condition of the gateway API: name and value.
#[derive(Debug, Clone)]
pub enum K8sHttpHeaderMatch {
    Exact(String, String),
    RegularExpression(String, String),
}

/// A query parameter condition of the gateway API: name and value.
#[derive(Debug, Clone)]
pub enum K8sHttpQueryParamMatch {
    Exact(String, String),
    RegularExpression(String, String),
}

/// One set of conditions of a route rule.
#[derive(Debug, Clone)]
pub struct K8sHttpRouteMatch {
    pub path: Option<K8sHttpPathMatch>,
    pub headers: Option<Vec<K8sHttpHeaderMatch>>,
    pub query_params: Option<Vec<K8sHttpQueryParamMatch>>,
    pub method: Option<String>,
}

/// The object a backend reference names.
#[derive(Debug, Clone)]
pub struct K8sBackendObjectRef {
    pub name: String,
    pub namespace: Option<String>,
    pub port: Option<u16>,
    pub kind: Option<String>,
}

/// A backend of a route rule, with its weight and filters.
#[derive(Debug, Clone)]
pub struct K8sHttpBackendRef {
    pub backend_ref: Option<K8sBackendObjectRef>,
    pub weight: Option<u16>,
    pub filters: Option<Vec<K8sHttpRouteFilter>>,
}

/// A rule of a route object.
#[derive(Debug, Clone)]
pub struct K8sHttpRouteRule {
    pub matches: Option<Vec<K8sHttpRouteMatch>>,
    pub filters: Option<Vec<K8sHttpRouteFilter>>,
    pub backend_refs: Option<Vec<K8sHttpBackendRef>>,
}

/// A route object.
#[derive(Debug, Clone)]
pub struct K8sHttpRoute {
    pub name: Option<String>,
    pub namespace: Option<String>,
    /// The object's unique id.
    pub uid: Option<String>,
    /// The generation of the object's spec.
    pub generation: Option<i64>,
    pub parent_refs: Option<Vec<K8sParentRef>>,
    pub hostnames: Option<Vec<String>>,
    pub rules: Option<Vec<K8sHttpRouteRule>>,
}

pub open spec fn service_text() -> Seq<char> {
    seq!['s', 'e', 'r', 'v', 'i', 'c', 'e']
}

pub open spec fn httproute_kind() -> Seq<char> {
    seq!['h', 't', 't', 'p', 'r', 'o', 'u', 't', 'e']
}

/// Whether the backend names an object of a kind other than a service.
pub open spec fn backend_kind_refused(b: K8sHttpBackendRef) -> bool {
    b.backend_ref matches Some(o) && o.kind matches Some(k) && unicode_lower(k@) != service_text()
}

/// Whether a backend of the rule names an object other than a service.
pub open spec fn rule_refused(r: K8sHttpRouteRule) -> bool {
    r.backend_refs matches Some(v) && exists|i: int| 0 <= i < v@.len() && backend_kind_refused(#[trigger] v@[i])
}

/// Why a route object is refused, checked in this order: more than one
/// parent and a backend that is not a service are not supported
/// (`NotImplemented`); a route without parents is malformed
/// (`FormatError`).
pub open spec fn route_refusal(rt: K8sHttpRoute) -> Option<SgError> {
    if rt.parent_refs matches Some(p) && p@.len() > 1 {
        Some(SgError::NotImplemented)
    } else if rt.rules matches Some(rs) && exists|i: int| 0 <= i < rs@.len() && rule_refused(#[trigger] rs@[i]) {
        Some(SgError::NotImplemented)
    } else if rt.parent_refs is None {
        Some(SgError::FormatError)
    } else {
        None
    }
}

/// Whether a backend can be converted: it names an object, with a port,
/// and its filters are supported.
pub open spec fn backend_convertible(b: K8sHttpBackendRef) -> bool {
    &&& b.backend_ref matches Some(o) && o.port is Some
    &&& route_filters_supported(b.filters)
}

/// Whether a rule can be converted: its filters are supported and its
/// backends can be converted.
pub open spec fn rule_convertible(r: K8sHttpRouteRule) -> bool {
    &&& route_filters_supported(r.filters)
    &&& r.backend_refs matches Some(v) ==> forall|i: int| 0 <= i < v@.len() ==> backend_convertible(#[trigger] v@[i])
}

/// Whether a route that passes the checks can be converted: its parent
/// list is not empty and its rules can be converted.
pub open spec fn route_convertible(rt: K8sHttpRoute) -> bool {
    &&& rt.parent_refs matches Some(p) ==> p@.len() > 0
    &&& rt.rules matches Some(rs) ==> forall|i: int| 0 <= i < rs@.len() ==> rule_convertible(#[trigger] rs@[i])
}

/// The path condition of the gateway API as the route's own.
pub open spec fn path_match_converted(out: Option<SgHttpPathMatch>, p: Option<K8sHttpPathMatch>) -> bool {
    match p {
        None => out is None,
        Some(K8sHttpPathMatch::Exact(v)) => out matches Some(o) && o.kind == SgHttpPathMatchType::Exact && o.value == v,
        Some(K8sHttpPathMatch::PathPrefix(v)) => out matches Some(o) && o.kind == SgHttpPathMatchType::Prefix && o.value == v,
        Some(K8sHttpPathMatch::RegularExpression(v)) => out matches Some(o) && o.kind == SgHttpPathMatchType::Regular && o.value == v,
    }
}

/// A header condition of the gateway API as the route's own.
pub open spec fn header_match_converted(out: SgHttpHeaderMatch, h: K8sHttpHeaderMatch) -> bool {
    match h {
        K8sHttpHeaderMatch::Exact(n, v) => out.kind == SgHttpHeaderMatchType::Exact && out.name == n && out.value == v,
        K8sHttpHeaderMatch::RegularExpression(n, v) => out.kind == SgHttpHeaderMatchType::Regular && out.name == n && out.value == v,
    }
}

/// A query condition of the gateway API as the route's own.
pub open spec fn query_match_converted(out: SgHttpQueryMatch, q: K8sHttpQueryParamMatch) -> bool {
    match q {
        K8sHttpQueryParamMatch::Exact(n, v) => out.kind == SgHttpQueryMatchType::Exact && out.name == n && out.value == v,
        K8sHttpQueryParamMatch::RegularExpression(n, v) => out.kind == SgHttpQueryMatchType::Regular && out.name == n && out.value == v,
    }
}

/// A set of conditions of the gateway API as the route's own: the method
/// becomes the only method allowed, in lower case.
pub open spec fn match_converted(out: SgHttpRouteMatch, m: K8sHttpRouteMatch) -> bool {
    &&& path_match_converted(out.path, m.path)
    &&& match m.headers {
        None => out.header is None,
        Some(v) => out.header matches Some(o) && o@.len() == v@.len()
            && forall|i: int| 0 <= i < v@.len() ==> #[trigger] header_match_converted(o@[i], v@[i]),
    }
    &&& match m.query_params {
        None => out.query is None,
        Some(v) => out.query matches Some(o) && o@.len() == v@.len()
            && forall|i: int| 0 <= i < v@.len() ==> #[trigger] query_match_converted(o@[i], v@[i]),
    }
    &&& match m.method {
        None => out.method is None,
        Some(x) => out.method matches Some(o) && o@.len() == 1 && o@[0]@ == unicode_lower(x@),
    }
}

/// A backend of the gateway API as the route's own: the object's name, its
/// namespace (`default` when none is given) and port, the weight, and the
/// filters converted.
pub open spec fn backend_converted(out: SgBackendRef, b: K8sHttpBackendRef) -> bool {
    &&& out.name_or_host == b.backend_ref->0.name
    &&& out.namespace matches Some(n) && n@ == namespace_or_default(opt_seq(b.backend_ref->0.namespace))
    &&& out.port == b.backend_ref->0.port->0
    &&& out.timeout_ms is None
    &&& out.protocol is None
    &&& out.weight == b.weight
    &&& route_filters_converted(out.filters, b.filters)
}

/// A rule of the gateway API as the route's own.
pub open spec fn rule_converted(out: SgHttpRouteRule, r: K8sHttpRouteRule) -> bool {
    &&& match r.matches {
        None => out.matches is None,
        Some(v) => out.matches matches Some(o) && o@.len() == v@.len()
            && forall|i: int| 0 <= i < v@.len() ==> #[trigger] match_converted(o@[i], v@[i]),
    }
    &&& route_filters_converted(out.filters, r.filters)
    &&& match r.backend_refs {
        None => out.backends is None,
        Some(v) => out.backends matches Some(o) && o@.len() == v@.len()
            && forall|i: int| 0 <= i < v@.len() ==> #[trigger] backend_converted(o@[i], v@[i]),
    }
    &&& out.timeout_ms is None
}

/// The name of the gateway a route attaches to: the first parent's
/// namespace (else the route's, else `default`), a dot, and its name.
pub open spec fn parent_gateway_name(rt: K8sHttpRoute) -> Seq<char> {
    let p = rt.parent_refs->0@[0];
    let ns = match p.namespace {
        Some(n) => n@,
        None => namespace_or_default(opt_seq(rt.namespace)),
    };
    ns + seq!['.'] + p.name@
}

/// The route made from a supported route object: attached to its parent
/// gateway, with its hostnames, the filters that filter resources attach to
/// it (when it has a name) and its rules converted one by one.
pub open spec fn route_converted(out: SgHttpRoute, rt: K8sHttpRoute, objs: Seq<K8sSgFilterSpec>) -> bool {
    &&& out.gateway_name@ == parent_gateway_name(rt)
    &&& out.hostnames == rt.hostnames
    &&& match rt.name {
        Some(n) => filters_attached(out.filters, objs, httproute_kind(), n@, opt_seq(rt.namespace)),
        None => out.filters is None,
    }
    &&& match rt.rules {
        None => out.rules is None,
        Some(v) => out.rules matches Some(o) && o@.len() == v@.len()
            && forall|i: int| 0 <= i < v@.len() ==> #[trigger] rule_converted(o@[i], v@[i]),
    }
}

/// Whether the rule has a backend that is not a service.
fn rule_refused_exec(r: &K8sHttpRouteRule) -> (b: bool)
    ensures
        b == rule_refused(*r),
{
    let service: [char; 7] = ['s', 'e', 'r', 'v', 'i', 'c', 'e'];
    assert(service@ == service_text());
    match &r.backend_refs {
        Some(v) => {
            let mut i: usize = 0;
            while i < v.len()
                invariant
                    i <= v@.len(),
                    service@ == service_text(),
                    r.backend_refs == Some(*v),
                    forall|j: int| 0 <= j < i ==> !backend_kind_refused(#[trigger] v@[j]),
                decreases v.len() - i,
            {
                if let Some(o) = &v[i].backend_ref {
                    if let Some(k) = &o.kind {
                        let lk = to_lowercase(k.as_str());
                        if !text_is(lk.as_str(), service.as_slice()) {
                            assert(backend_kind_refused(v@[i as int]));
                            assert(exists|j: int| 0 <= j < v@.len() && backend_kind_refused(#[trigger] v@[j]));
                            assert(r.backend_refs->0@ == v@);
                            assert(rule_refused(*r));
                            return true;
                        }
                    }
                }
                i = i + 1;
            }
            false
        },
        None => false,
    }
}

/// Whether the route object is supported and well formed (see
/// [`route_refusal`]).
pub fn check_http_route(rt: &K8sHttpRoute) -> (r: Result<(), SgError>)
    ensures
        match route_refusal(*rt) {
            Some(e) => r == Err::<(), SgError>(e),
            None => r is Ok,
        },
{
    if let Some(p) = &rt.parent_refs {
        if p.len() > 1 {
            return Err(SgError::NotImplemented);
        }
    }
    if let Some(rs) = &rt.rules {
        let mut i: usize = 0;
        while i < rs.len()
            invariant
                i <= rs@.len(),
                rt.rules == Some(*rs),
                rt.parent_refs matches Some(p) ==> p@.len() <= 1,
                forall|j: int| 0 <= j < i ==> !rule_refused(#[trigger] rs@[j]),
            decreases rs.len() - i,
        {
            if rule_refused_exec(&rs[i]) {
                assert(rule_refused(rs@[i as int]));
                assert(exists|j: int| 0 <= j < rs@.len() && rule_refused(#[trigger] rs@[j]));
                assert(rt.rules->0@ == rs@);
                return Err(SgError::NotImplemented);
            }
            i = i + 1;
        }
    }
    if rt.parent_refs.is_none() {
        return Err(SgError::FormatError);
    }
    Ok(())
}

/// Converts a path condition.
fn convert_path_match(p: Option<K8sHttpPathMatch>) -> (r: Option<SgHttpPathMatch>)
    ensures
        path_match_converted(r, p),
{
    match p {
        Some(K8sHttpPathMatch::Exact(value)) => Some(SgHttpPathMatch { kind: SgHttpPathMatchType::Exact, value }),
        Some(K8sHttpPathMatch::PathPrefix(value)) => Some(SgHttpPathMatch { kind: SgHttpPathMatchType::Prefix, value }),
        Some(K8sHttpPathMatch::RegularExpression(value)) => Some(SgHttpPathMatch { kind: SgHttpPathMatchType::Regular, value }),
        None => None,
    }
}

/// Converts header conditions.
fn convert_header_matches(hs: Option<Vec<K8sHttpHeaderMatch>>) -> (r: Option<Vec<SgHttpHeaderMatch>>)
    ensures
        match hs {
            None => r is None,
            Some(v) => r matches Some(o) && o@.len() == v@.len()
                && forall|i: int| 0 <= i < v@.len() ==> #[trigger] header_match_converted(o@[i], v@[i]),
        },
{
    match hs {
        Some(v) => {
            let ghost v0 = v@;
            let mut rest = v;
            let mut out: Vec<SgHttpHeaderMatch> = Vec::new();
            while rest.len() > 0
                invariant
                    out@.len() + rest@.len() == v0.len(),
                    rest@ == v0.skip(out@.len() as int),
                    forall|k: int| 0 <= k < out@.len() ==> #[trigger] header_match_converted(out@[k], v0[k]),
                decreases rest@.len(),
            {
                let ghost n = out@.len();
                let h = rest.remove(0);
                assert(h == v0[n as int]);
                let c = match h {
                    K8sHttpHeaderMatch::Exact(name, value) => SgHttpHeaderMatch { kind: SgHttpHeaderMatchType::Exact, name, value },
                    K8sHttpHeaderMatch::RegularExpression(name, value) => SgHttpHeaderMatch { kind: SgHttpHeaderMatchType::Regular, name, value },
                };
                out.push(c);
                assert(rest@ =~= v0.skip(n as int + 1));
            }
            Some(out)
        },
        None => None,
    }
}

/// Converts query parameter conditions.
fn convert_query_matches(qs: Option<Vec<K8sHttpQueryParamMatch>>) -> (r: Option<Vec<SgHttpQueryMatch>>)
    ensures
        match qs {
            None => r is None,
            Some(v) => r matches Some(o) && o@.len() == v@.len()
                && forall|i: int| 0 <= i < v@.len() ==> #[trigger] query_match_converted(o@[i], v@[i]),
        },
{
    match qs {
        Some(v) => {
            let ghost v0 = v@;
            let mut rest = v;
            let mut out: Vec<SgHttpQueryMatch> = Vec::new();
            while rest.len() > 0
                invariant
                    out@.len() + rest@.len() == v0.len(),
                    rest@ == v0.skip(out@.len() as int),
                    forall|k: int| 0 <= k < out@.len() ==> #[trigger] query_match_converted(out@[k], v0[k]),
                decreases rest@.len(),
            {
                let ghost n = out@.len();
                let q = rest.remove(0);
                assert(q == v0[n as int]);
                let c = match q {
                    K8sHttpQueryParamMatch::Exact(name, value) => SgHttpQueryMatch { kind: SgHttpQueryMatchType::Exact, name, value },
                    K8sHttpQueryParamMatch::RegularExpression(name, value) => SgHttpQueryMatch { kind: SgHttpQueryMatchType::Regular, name, value },
                };
                out.push(c);
                assert(rest@ =~= v0.skip(n as int + 1));
            }
            Some(out)
        },
        None => None,
    }
}

/// Converts a set of conditions.
fn convert_match(m: K8sHttpRouteMatch) -> (r: SgHttpRouteMatch)
    ensures
        match_converted(r, m),
{
    let method = match &m.method {
        Some(x) => {
            let mut v: Vec<String> = Vec::new();
            v.push(to_lowercase(x.as_str()));
            Some(v)
        },
        None => None,
    };
    SgHttpRouteMatch {
        path: convert_path_match(m.path),
        header: convert_header_matches(m.headers),
        query: convert_query_matches(m.query_params),
        method,
    }
}

/// Converts the condition sets of a rule.
fn convert_matches(ms: Option<Vec<K8sHttpRouteMatch>>) -> (r: Option<Vec<SgHttpRouteMatch>>)
    ensures
        match ms {
            None => r is None,
            Some(v) => r matches Some(o) && o@.len() == v@.len()
                && forall|i: int| 0 <= i < v@.len() ==> #[trigger] match_converted(o@[i], v@[i]),
        },
{
    match ms {
        Some(v) => {
            let ghost v0 = v@;
            let mut rest = v;
            let mut out: Vec<SgHttpRouteMatch> = Vec::new();
            while rest.len() > 0
                invariant
                    out@.len() + rest@.len() == v0.len(),
                    rest@ == v0.skip(out@.len() as int),
                    forall|k: int| 0 <= k < out@.len() ==> #[trigger] match_converted(out@[k], v0[k]),
                decreases rest@.len(),
            {
                let ghost n = out@.len();
                let m = rest.remove(0);
                assert(m == v0[n as int]);
                out.push(convert_match(m));
                assert(rest@ =~= v0.skip(n as int + 1));
            }
            Some(out)
        },
        None => None,
    }
}

/// Converts a backend.
fn convert_backend(b: K8sHttpBackendRef) -> (r: SgBackendRef)
    requires
        backend_convertible(b),
    ensures
        backend_converted(r, b),
{
    proof {
        reveal_strlit("default");
        assert("default"@ =~= seq!['d', 'e', 'f', 'a', 'u', 'l', 't']);
    }
    let filters = convert_filters(b.filters);
    match b.backend_ref {
        Some(o) => {
            let namespace = match o.namespace {
                Some(n) => n,
                None => String::from_str("default"),
            };
            let port = match o.port {
                Some(p) => p,
                None => 0,
            };
            SgBackendRef {
                name_or_host: o.name,
                namespace: Some(namespace),
                port,
                timeout_ms: None,
                protocol: None,
                weight: b.weight,
                filters,
            }
        },
        None => {
            assert(false);
            SgBackendRef { name_or_host: String::new(), namespace: None, port: 0, timeout_ms: None, protocol: None, weight: None, filters: None }
        },
    }
}

/// Converts the backends of a rule.
fn convert_backends(bs: Option<Vec<K8sHttpBackendRef>>) -> (r: Option<Vec<SgBackendRef>>)
    requires
        bs matches Some(v) ==> forall|i: int| 0 <= i < v@.len() ==> backend_convertible(#[trigger] v@[i]),
    ensures
        match bs {
            None => r is None,
            Some(v) => r matches Some(o) && o@.len() == v@.len()
                && forall|i: int| 0 <= i < v@.len() ==> #[trigger] backend_converted(o@[i], v@[i]),
        },
{
    match bs {
        Some(v) => {
            let ghost v0 = v@;
            let mut rest = v;
            let mut out: Vec<SgBackendRef> = Vec::new();
            while rest.len() > 0
                invariant
                    out@.len() + rest@.len() == v0.len(),
                    rest@ == v0.skip(out@.len() as int),
                    forall|k: int| 0 <= k < v0.len() ==> backend_convertible(#[trigger] v0[k]),
                    forall|k: int| 0 <= k < out@.len() ==> #[trigger] backend_converted(out@[k], v0[k]),
                decreases rest@.len(),
            {
                let ghost n = out@.len();
                let b = rest.remove(0);
                assert(b == v0[n as int]);
                out.push(convert_backend(b));
                assert(rest@ =~= v0.skip(n as int + 1));
            }
            Some(out)
        },
        None => None,
    }
}

/// Converts a rule.
fn convert_rule(r: K8sHttpRouteRule) -> (o: SgHttpRouteRule)
    requires
        rule_convertible(r),
    ensures
        rule_converted(o, r),
{
    SgHttpRouteRule {
        matches: convert_matches(r.matches),
        filters: convert_filters(r.filters),
        backends: convert_backends(r.backend_refs),
        timeout_ms: None,
    }
}

/// Converts a route object into a route (see [`route_converted`]), or says
/// why it is refused (see [`route_refusal`]); `filter_objs` are the filter
/// resources of the cluster.
pub fn http_route_from_k8s(rt: K8sHttpRoute, filter_objs: &Vec<K8sSgFilterSpec>) -> (r: Result<SgHttpRoute, SgError>)
    requires
        route_refusal(rt) is None ==> route_convertible(rt),
    ensures
        match route_refusal(rt) {
            Some(e) => r == Err::<SgHttpRoute, SgError>(e),
            None => r matches Ok(out) && route_converted(out, rt, filter_objs@),
        },
{
    check_http_route(&rt)?;
    proof {
        reveal_strlit("default");
        reveal_strlit(".");
        reveal_strlit("httproute");
        assert("default"@ =~= seq!['d', 'e', 'f', 'a', 'u', 'l', 't']);
        assert("."@ =~= seq!['.']);
        assert("httproute"@ =~= httproute_kind());
    }
    let gateway_name = match &rt.parent_refs {
        Some(p) => {
            let parent = &p[0];
            let mut name = match &parent.namespace {
                Some(n) => n.clone(),
                None => match &rt.namespace {
                    Some(n) => n.clone(),
                    None => String::from_str("default"),
                },
            };
            name.append(".");
            name.append(parent.name.as_str());
            name
        },
        None => {
            return Err(SgError::FormatError);
        },
    };
    let filters = match &rt.name {
        Some(n) => get_filters_from_cdr(filter_objs, "httproute", n.as_str(), &rt.namespace),
        None => None,
    };
    let rules = match rt.rules {
        Some(v) => {
            let ghost v0 = v@;
            let mut rest = v;
            let mut out: Vec<SgHttpRouteRule> = Vec::new();
            while rest.len() > 0
                invariant
                    out@.len() + rest@.len() == v0.len(),
                    rest@ == v0.skip(out@.len() as int),
                    forall|k: int| 0 <= k < v0.len() ==> rule_convertible(#[trigger] v0[k]),
                    forall|k: int| 0 <= k < out@.len() ==> #[trigger] rule_converted(out@[k], v0[k]),
                decreases rest@.len(),
            {
                let ghost n = out@.len();
                let x = rest.remove(0);
                assert(x == v0[n as int]);
                out.push(convert_rule(x));
                assert(rest@ =~= v0.skip(n as int + 1));
            }
            Some(out)
        },
        None => None,
    };
    Ok(SgHttpRoute { gateway_name, hostnames: rt.hostnames, filters, rules })
}

/// Converts the route objects (see [`http_route_from_k8s`]); the first
/// object refused refuses them all.
pub fn process_http_route_config(http_route_objs: Vec<K8sHttpRoute>, filter_objs: &Vec<K8sSgFilterSpec>) -> (r: Result<Vec<SgHttpRoute>, SgError>)
    requires
        forall|i: int| 0 <= i < http_route_objs@.len() ==> (route_refusal(#[trigger] http_route_objs@[i]) is None ==> route_convertible(http_route_objs@[i])),
    ensures
        match r {
            Ok(routes) => routes@.len() == http_route_objs@.len()
                && forall|i: int| 0 <= i < http_route_objs@.len() ==> route_refusal(#[trigger] http_route_objs@[i]) is None
                    && route_converted(routes@[i], http_route_objs@[i], filter_objs@),
            Err(e) => exists|i: int| 0 <= i < http_route_objs@.len() && route_refusal(#[trigger] http_route_objs@[i]) == Some(e)
                && forall|j: int| 0 <= j < i ==> route_refusal(#[trigger] http_route_objs@[j]) is None,
        },
{
    let ghost v0 = http_route_objs@;
    let mut rest = http_route_objs;
    let mut out: Vec<SgHttpRoute> = Vec::new();
    while rest.len() > 0
        invariant
            v0 == http_route_objs@,
            out@.len() + rest@.len() == v0.len(),
            rest@ == v0.skip(out@.len() as int),
            forall|k: int| 0 <= k < v0.len() ==> (route_refusal(#[trigger] v0[k]) is None ==> route_convertible(v0[k])),
            forall|k: int| 0 <= k < out@.len() ==> route_refusal(#[trigger] v0[k]) is None && route_converted(out@[k], v0[k], filter_objs@),
        decreases rest@.len(),
    {
        let ghost n = out@.len();
        let x = rest.remove(0);
        assert(x == v0[n as int]);
        match http_route_from_k8s(x, filter_objs) {
            Ok(route) => out.push(route),
            Err(e) => {
                assert(route_refusal(v0[n as int]) == Some(e));
                assert(forall|j: int| 0 <= j < n ==> route_refusal(#[trigger] v0[j]) is None);
                assert(exists|i: int| 0 <= i < v0.len() && route_refusal(#[trigger] v0[i]) == Some(e)
                    && forall|j: int| 0 <= j < i ==> route_refusal(#[trigger] v0[j]) is None);
                return Err(e);
            },
        }
        assert(rest@ =~= v0.skip(n as int + 1));
    }
    Ok(out)
}

/* ------------------------------------------------------------------------
   Routes of the gateways found
   ------------------------------------------------------------------------ */

/// The gateway a parent reference of a route points at, as
/// `namespace.name`: the reference's namespace, else the route's, else
/// `default`.
pub open spec fn parent_ref_gateway_name(route_namespace: Option<String>, p: K8sParentRef) -> Seq<char> {
    let ns = match p.namespace {
        Some(n) => n@,
        None => namespace_or_default(opt_seq(route_namespace)),
    };
    ns + seq!['.'] + p.name@
}

/// Whether some parent reference of the route points at one of the named
/// gateways.
pub open spec fn route_refers(route: K8sHttpRoute, gateway_names: Seq<Seq<char>>) -> bool {
    match route.parent_refs {
        None => false,
        Some(ps) => exists|i: int, j: int| 0 <= i < ps@.len() && 0 <= j < gateway_names.len()
            && #[trigger] gateway_names[j] == parent_ref_gateway_name(route.namespace, #[trigger] ps@[i]),
    }
}

/// The names of some strings, as texts.
pub open spec fn texts_of(names: Seq<String>) -> Seq<Seq<char>> {
    names.map_values(|s: String| s@)
}

/// The routes that point at one of the named gateways, in order.
pub open spec fn routes_referring(routes: Seq<K8sHttpRoute>, gateway_names: Seq<Seq<char>>) -> Seq<K8sHttpRoute>
    decreases routes.len(),
{
    if routes.len() == 0 {
        Seq::empty()
    } else {
        let p = routes_referring(routes.drop_last(), gateway_names);
        if route_refers(routes.last(), gateway_names) {
            p.push(routes.last())
        } else {
            p
        }
    }
}

/// The name of the gateway a parent reference points at (see
/// [`parent_ref_gateway_name`]).
fn parent_ref_gateway_name_of(route_namespace: &Option<String>, p: &K8sParentRef) -> (r: String)
    ensures
        r@ == parent_ref_gateway_name(*route_namespace, *p),
{
    let mut out = String::new();
    match &p.namespace {
        Some(n) => out.append(n.as_str()),
        None => match route_namespace {
            Some(n) => out.append(n.as_str()),
            None => {
                out.append("default");
                proof {
                    reveal_strlit("default");
                }
            },
        },
    }
    crate::text::string_push(&mut out, '.');
    out.append(p.name.as_str());
    assert(out@ =~= parent_ref_gateway_name(*route_namespace, *p));
    out
}

/// Whether the route points at one of the named gateways (see
/// [`route_refers`]).
pub fn refers_to_gateways(route: &K8sHttpRoute, gateway_names: &Vec<String>) -> (r: bool)
    ensures
        r == route_refers(*route, texts_of(gateway_names@)),
{
    match &route.parent_refs {
        None => false,
        Some(ps) => {
            let mut i: usize = 0;
            while i < ps.len()
                invariant
                    i <= ps@.len(),
                    route.parent_refs == Some(*ps),
                    forall|a: int, b: int| 0 <= a < i && 0 <= b < gateway_names@.len()
                        ==> #[trigger] gateway_names@[b]@ != parent_ref_gateway_name(route.namespace, #[trigger] ps@[a]),
                decreases ps.len() - i,
            {
                let key = parent_ref_gateway_name_of(&route.namespace, &ps[i]);
                let mut j: usize = 0;
                while j < gateway_names.len()
                    invariant
                        i < ps@.len(),
                        route.parent_refs == Some(*ps),
                        j <= gateway_names@.len(),
                        key@ == parent_ref_gateway_name(route.namespace, ps@[i as int]),
                        forall|b: int| 0 <= b < j ==> #[trigger] gateway_names@[b]@ != key@,
                    decreases gateway_names.len() - j,
                {
                    let a = crate::text::chars_of(gateway_names[j].as_str());
                    let b = crate::text::chars_of(key.as_str());
                    if crate::text::seq_eq(a.as_slice(), b.as_slice()) {
                        assert(gateway_names@[j as int]@ == parent_ref_gateway_name(route.namespace, ps@[i as int]));
                        let ghost pp = route.parent_refs->0;
                        assert(pp@[i as int] == ps@[i as int]);
                        assert(0 <= i < pp@.len() && 0 <= j < gateway_names@.len()
                            && gateway_names@[j as int]@ == parent_ref_gateway_name(route.namespace, pp@[i as int]));
                        assert(texts_of(gateway_names@)[j as int] == gateway_names@[j as int]@);
                        assert(route_refers(*route, texts_of(gateway_names@)));
                        return true;
                    }
                    j = j + 1;
                }
                i = i + 1;
            }
            false
        },
    }
}

/// Keeps the routes that point at one of the named gateways, in order.
pub fn select_http_routes(routes: Vec<K8sHttpRoute>, gateway_names: &Vec<String>) -> (r: Vec<K8sHttpRoute>)
    ensures
        r@ == routes_referring(routes@, texts_of(gateway_names@)),
{
    let mut out: Vec<K8sHttpRoute> = Vec::new();
    let mut rest = routes;
    let ghost all = rest@;
    let mut n: usize = 0;
    let total = rest.len();
    assert(all.skip(0) =~= all);
    while n < total
        invariant
            n <= total,
            total == all.len(),
            rest@ == all.skip(n as int),
            out@ == routes_referring(all.take(n as int), texts_of(gateway_names@)),
        decreases total - n,
    {
        let x = rest.remove(0);
        proof {
            assert(x == all[n as int]);
            assert(rest@ =~= all.skip(n + 1));
            assert(all.take(n + 1).drop_last() =~= all.take(n as int));
            assert(all.take(n + 1).last() == x);
        }
        if refers_to_gateways(&x, gateway_names) {
            out.push(x);
        }
        n = n + 1;
    }
    assert(all.take(total as int) =~= all);
    out
}

/// The routes attached to the gateway named `name`, in order.
pub open spec fn routes_of_gateway(routes: Seq<SgHttpRoute>, name: Seq<char>) -> Seq<SgHttpRoute>
    decreases routes.len(),
{
    if routes.len() == 0 {
        Seq::empty()
    } else {
        let p = routes_of_gateway(routes.drop_last(), name);
        if routes.last().gateway_name@ == name {
            p.push(routes.last())
        } else {
            p
        }
    }
}

/// Copies of the routes attached to the gateway named `name`, in order.
fn copy_routes_of_gateway(routes: &Vec<SgHttpRoute>, name: &String) -> (r: Vec<SgHttpRoute>)
    ensures
        r@.len() == routes_of_gateway(routes@, name@).len(),
        forall|k: int| 0 <= k < r@.len() ==> cloned(routes_of_gateway(routes@, name@)[k], #[trigger] r@[k]),
{
    let nc = crate::text::chars_of(name.as_str());
    let mut out: Vec<SgHttpRoute> = Vec::new();
    let mut i: usize = 0;
    while i < routes.len()
        invariant
            i <= routes@.len(),
            nc@ == name@,
            out@.len() == routes_of_gateway(routes@.take(i as int), name@).len(),
            forall|k: int| 0 <= k < out@.len() ==> cloned(routes_of_gateway(routes@.take(i as int), name@)[k], #[trigger] out@[k]),
        decreases routes.len() - i,
    {
        proof {
            assert(routes@.take(i + 1).drop_last() =~= routes@.take(i as int));
            assert(routes@.take(i + 1).last() == routes@[i as int]);
        }
        let gc = crate::text::chars_of(routes[i].gateway_name.as_str());
        if crate::text::seq_eq(gc.as_slice(), nc.as_slice()) {
            let ghost prev = out@;
            out.push(routes[i].clone());
            proof {
                let sp = routes_of_gateway(routes@.take(i + 1), name@);
                assert forall|k: int| 0 <= k < out@.len() implies cloned(sp[k], #[trigger] out@[k]) by {
                    if k < prev.len() {
                        assert(out@[k] == prev[k]);
                    }
                }
            }
        }
        i = i + 1;
    }
    assert(routes@.take(routes@.len() as int) =~= routes@);
    out
}

/// Each gateway with copies of the routes attached to it, in the order of
/// the gateways.
pub fn pair_gateway_routes(gateways: Vec<SgGateway>, routes: &Vec<SgHttpRoute>) -> (r: Vec<(SgGateway, Vec<SgHttpRoute>)>)
    ensures
        r@.len() == gateways@.len(),
        forall|i: int| 0 <= i < r@.len() ==> {
            &&& (#[trigger] r@[i]).0 == gateways@[i]
            &&& r@[i].1@.len() == routes_of_gateway(routes@, gateways@[i].name@).len()
            &&& forall|k: int| 0 <= k < r@[i].1@.len() ==> cloned(routes_of_gateway(routes@, gateways@[i].name@)[k], #[trigger] r@[i].1@[k])
        },
{
    let mut out: Vec<(SgGateway, Vec<SgHttpRoute>)> = Vec::new();
    let mut rest = gateways;
    let ghost all = rest@;
    let total = rest.len();
    let mut n: usize = 0;
    assert(all.skip(0) =~= all);
    while n < total
        invariant
            n <= total,
            total == all.len(),
            rest@ == all.skip(n as int),
            out@.len() == n,
            forall|i: int| 0 <= i < n ==> {
                &&& (#[trigger] out@[i]).0 == all[i]
                &&& out@[i].1@.len() == routes_of_gateway(routes@, all[i].name@).len()
                &&& forall|k: int| 0 <= k < out@[i].1@.len() ==> cloned(routes_of_gateway(routes@, all[i].name@)[k], #[trigger] out@[i].1@[k])
            },
        decreases total - n,
    {
        let g = rest.remove(0);
        proof {
            assert(g == all[n as int]);
            assert(rest@ =~= all.skip(n + 1));
        }
        let rs = copy_routes_of_gateway(routes, &g.name);
        out.push((g, rs));
        n = n + 1;
    }
    out
}

/* ------------------------------------------------------------------------
   The configuration read when the gateway starts
   ------------------------------------------------------------------------ */

/// The gateway class this gateway serves: `spacegate`.
pub open spec fn spacegate_class() -> Seq<char> {
    seq!['s', 'p', 'a', 'c', 'e', 'g', 'a', 't', 'e']
}

/// Whether the gateway object belongs to the `spacegate` class.
pub open spec fn is_spacegate(g: K8sGateway) -> bool {
    g.class_name@ == spacegate_class()
}

/// The gateway objects of the `spacegate` class, with their secrets, in
/// order.
pub open spec fn spacegate_gateways(objs: Seq<(K8sGateway, Vec<Option<K8sTlsSecret>>)>) -> Seq<(K8sGateway, Vec<Option<K8sTlsSecret>>)>
    decreases objs.len(),
{
    if objs.len() == 0 {
        Seq::empty()
    } else {
        let p = spacegate_gateways(objs.drop_last());
        if is_spacegate(objs.last().0) {
            p.push(objs.last())
        } else {
            p
        }
    }
}

/// The name a gateway object's gateway gets: `namespace.name`, with the
/// namespace `default` when none is given.
pub open spec fn k8s_gateway_name(g: K8sGateway) -> Seq<char> {
    namespace_or_default(opt_seq(g.namespace)) + seq!['.'] + g.name->0@
}

/// The names the gateways of the objects get, in order.
pub open spec fn gateway_names_of(objs: Seq<(K8sGateway, Vec<Option<K8sTlsSecret>>)>) -> Seq<Seq<char>> {
    objs.map_values(|p: (K8sGateway, Vec<Option<K8sTlsSecret>>)| k8s_gateway_name(p.0))
}

/// Whether the gateway object belongs to the `spacegate` class.
pub fn is_spacegate_gateway(g: &K8sGateway) -> (r: bool)
    ensures
        r == is_spacegate(*g),
{
    let c = crate::text::chars_of(g.class_name.as_str());
    let want: [char; 9] = ['s', 'p', 'a', 'c', 'e', 'g', 'a', 't', 'e'];
    assert(want@ == spacegate_class());
    crate::text::seq_eq(c.as_slice(), want.as_slice())
}

/// Keeps the gateway objects of the `spacegate` class, in order.
pub fn select_gateways(objs: Vec<(K8sGateway, Vec<Option<K8sTlsSecret>>)>) -> (r: Vec<(K8sGateway, Vec<Option<K8sTlsSecret>>)>)
    ensures
        r@ == spacegate_gateways(objs@),
{
    let mut out: Vec<(K8sGateway, Vec<Option<K8sTlsSecret>>)> = Vec::new();
    let mut rest = objs;
    let ghost all = rest@;
    let mut n: usize = 0;
    let total = rest.len();
    assert(all.skip(0) =~= all);
    while n < total
        invariant
            n <= total,
            total == all.len(),
            rest@ == all.skip(n as int),
            out@ == spacegate_gateways(all.take(n as int)),
        decreases total - n,
    {
        let x = rest.remove(0);
        proof {
            assert(x == all[n as int]);
            assert(rest@ =~= all.skip(n + 1));
            assert(all.take(n + 1).drop_last() =~= all.take(n as int));
            assert(all.take(n + 1).last() == x);
        }
        if is_spacegate_gateway(&x.0) {
            out.push(x);
        }
        n = n + 1;
    }
    assert(all.take(total as int) =~= all);
    out
}

/// The selected gateway objects are objects of the `spacegate` class from
/// the list.
proof fn lemma_spacegate_members(objs: Seq<(K8sGateway, Vec<Option<K8sTlsSecret>>)>)
    ensures
        forall|k: int| 0 <= k < spacegate_gateways(objs).len() ==> is_spacegate((#[trigger] spacegate_gateways(objs)[k]).0)
            && exists|i: int| 0 <= i < objs.len() && objs[i] == spacegate_gateways(objs)[k],
    decreases objs.len(),
{
    if objs.len() > 0 {
        let d = objs.drop_last();
        lemma_spacegate_members(d);
        let p = spacegate_gateways(d);
        assert forall|k: int| 0 <= k < spacegate_gateways(objs).len() implies is_spacegate((#[trigger] spacegate_gateways(objs)[k]).0)
            && exists|i: int| 0 <= i < objs.len() && objs[i] == spacegate_gateways(objs)[k] by {
            if k < p.len() {
                assert(spacegate_gateways(objs)[k] == p[k]);
                let i = choose|i: int| 0 <= i < d.len() && d[i] == p[k];
                assert(objs[i] == d[i]);
            } else {
                assert(objs[objs.len() - 1] == objs.last());
            }
        }
    }
}

/// The selected routes are routes of the list that point at one of the
/// gateways.
proof fn lemma_routes_referring_members(routes: Seq<K8sHttpRoute>, names: Seq<Seq<char>>)
    ensures
        forall|k: int| 0 <= k < routes_referring(routes, names).len() ==> route_refers(#[trigger] routes_referring(routes, names)[k], names)
            && exists|i: int| 0 <= i < routes.len() && routes[i] == routes_referring(routes, names)[k],
    decreases routes.len(),
{
    if routes.len() > 0 {
        let d = routes.drop_last();
        lemma_routes_referring_members(d, names);
        let p = routes_referring(d, names);
        assert forall|k: int| 0 <= k < routes_referring(routes, names).len() implies route_refers(#[trigger] routes_referring(routes, names)[k], names)
            && exists|i: int| 0 <= i < routes.len() && routes[i] == routes_referring(routes, names)[k] by {
            if k < p.len() {
                assert(routes_referring(routes, names)[k] == p[k]);
                let i = choose|i: int| 0 <= i < d.len() && d[i] == p[k];
                assert(routes[i] == d[i]);
            } else {
                assert(routes[routes.len() - 1] == routes.last());
            }
        }
    }
}

/// What the configuration read at start is: only the gateway objects of
/// the `spacegate` class are converted, in order; the route objects that
/// point at one of their gateways are converted, in order; and each
/// gateway comes with copies of the converted routes attached to it. The
/// first gateway object refused, else the first route object refused,
/// refuses it all.
pub open spec fn initial_config(
    gateway_objs: Seq<(K8sGateway, Vec<Option<K8sTlsSecret>>)>,
    route_objs: Seq<K8sHttpRoute>,
    filter_objs: Seq<K8sSgFilterSpec>,
    r: Result<Vec<(SgGateway, Vec<SgHttpRoute>)>, SgError>,
) -> bool {
    let sel = spacegate_gateways(gateway_objs);
    let sr = routes_referring(route_objs, gateway_names_of(sel));
    match r {
        Ok(v) => {
            &&& v@.len() == sel.len()
            &&& forall|i: int| 0 <= i < sel.len() ==> gateway_refusal((#[trigger] sel[i]).0) is None
                && gateway_converted(v@[i].0, sel[i].0, sel[i].1@, filter_objs)
            &&& forall|k: int| 0 <= k < sr.len() ==> route_refusal(#[trigger] sr[k]) is None
            &&& exists|conv: Seq<SgHttpRoute>| {
                &&& conv.len() == sr.len()
                &&& forall|k: int| 0 <= k < sr.len() ==> route_converted(#[trigger] conv[k], sr[k], filter_objs)
                &&& forall|i: int| 0 <= i < v@.len() ==> {
                    &&& (#[trigger] v@[i]).1@.len() == routes_of_gateway(conv, v@[i].0.name@).len()
                    &&& forall|k: int| 0 <= k < v@[i].1@.len() ==> cloned(routes_of_gateway(conv, v@[i].0.name@)[k], #[trigger] v@[i].1@[k])
                }
            }
        },
        Err(e) => {
            ||| exists|i: int| 0 <= i < sel.len() && gateway_refusal((#[trigger] sel[i]).0) == Some(e)
                && forall|j: int| 0 <= j < i ==> gateway_refusal((#[trigger] sel[j]).0) is None
            ||| (forall|i: int| 0 <= i < sel.len() ==> gateway_refusal((#[trigger] sel[i]).0) is None)
                && exists|k: int| 0 <= k < sr.len() && route_refusal(#[trigger] sr[k]) == Some(e)
                && forall|j: int| 0 <= j < k ==> route_refusal(#[trigger] sr[j]) is None
        },
    }
}

/// Reads the configuration at start (see [`initial_config`]) from the
/// gateway objects with the secrets of their listeners, the route objects
/// and the filter resources of the cluster.
pub fn k8s_initial_config(
    gateway_objs: Vec<(K8sGateway, Vec<Option<K8sTlsSecret>>)>,
    http_route_objs: Vec<K8sHttpRoute>,
    filter_objs: &Vec<K8sSgFilterSpec>,
) -> (r: Result<Vec<(SgGateway, Vec<SgHttpRoute>)>, SgError>)
    requires
        forall|i: int| 0 <= i < gateway_objs@.len() && is_spacegate((#[trigger] gateway_objs@[i]).0)
            ==> gateway_inputs_ok(gateway_objs@[i].0, gateway_objs@[i].1@),
        forall|i: int| 0 <= i < http_route_objs@.len() && route_refers(#[trigger] http_route_objs@[i], gateway_names_of(spacegate_gateways(gateway_objs@)))
            && route_refusal(http_route_objs@[i]) is None ==> route_convertible(http_route_objs@[i]),
    ensures
        initial_config(gateway_objs@, http_route_objs@, filter_objs@, r),
{
    let ghost gobjs = gateway_objs@;
    let ghost robjs = http_route_objs@;
    let sel = select_gateways(gateway_objs);
    proof {
        lemma_spacegate_members(gobjs);
        assert forall|i: int| 0 <= i < sel@.len() implies gateway_inputs_ok((#[trigger] sel@[i]).0, sel@[i].1@) by {
            let j = choose|j: int| 0 <= j < gobjs.len() && gobjs[j] == spacegate_gateways(gobjs)[i];
            assert(is_spacegate(gobjs[j].0));
        }
    }
    let gws = match process_gateway_config(&sel, filter_objs) {
        Ok(g) => g,
        Err(e) => {
            return Err(e);
        },
    };
    let ghost names_spec = gateway_names_of(sel@);
    let mut names: Vec<String> = Vec::new();
    let mut i: usize = 0;
    while i < gws.len()
        invariant
            i <= gws@.len(),
            gws@.len() == sel@.len(),
            forall|k: int| 0 <= k < sel@.len() ==> gateway_refusal((#[trigger] sel@[k]).0) is None
                && gateway_converted(gws@[k], sel@[k].0, sel@[k].1@, filter_objs@),
            names_spec == gateway_names_of(sel@),
            names@.len() == i,
            texts_of(names@) == names_spec.take(i as int),
        decreases gws.len() - i,
    {
        let ghost prev = names@;
        let nm = gws[i].name.clone();
        assert(nm@ == gws@[i as int].name@);
        names.push(nm);
        proof {
            assert(gws@[i as int].name@ == k8s_gateway_name(sel@[i as int].0));
            assert(names@[i as int]@ == gws@[i as int].name@);
            assert(names_spec[i as int] == k8s_gateway_name(sel@[i as int].0));
            assert(names@.drop_last() == prev);
            assert forall|k: int| 0 <= k < i + 1 implies #[trigger] texts_of(names@)[k] == names_spec.take(i + 1)[k] by {
                if k < i {
                    assert(names@[k] == prev[k]);
                    assert(texts_of(prev)[k] == names_spec.take(i as int)[k]);
                }
            }
            assert(texts_of(names@) =~= names_spec.take(i + 1));
        }
        i = i + 1;
    }
    assert(names_spec.take(gws@.len() as int) =~= names_spec);
    let routes = select_http_routes(http_route_objs, &names);
    proof {
        lemma_routes_referring_members(robjs, names_spec);
        assert forall|k: int| 0 <= k < routes@.len() implies (route_refusal(#[trigger] routes@[k]) is None ==> route_convertible(routes@[k])) by {
            let j = choose|j: int| 0 <= j < robjs.len() && robjs[j] == routes_referring(robjs, names_spec)[k];
            assert(route_refers(robjs[j], names_spec));
        }
    }
    let conv = match process_http_route_config(routes, filter_objs) {
        Ok(c) => c,
        Err(e) => {
            return Err(e);
        },
    };
    let pairs = pair_gateway_routes(gws, &conv);
    proof {
        let v = pairs@;
        assert forall|i: int| 0 <= i < v.len() implies {
            &&& (#[trigger] v[i]).1@.len() == routes_of_gateway(conv@, v[i].0.name@).len()
            &&& forall|k: int| 0 <= k < v[i].1@.len() ==> cloned(routes_of_gateway(conv@, v[i].0.name@)[k], #[trigger] v[i].1@[k])
        } by {
            assert(v[i].0 == gws@[i]);
        }
    }
    Ok(pairs)
}

} // verus!
