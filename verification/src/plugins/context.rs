//! The state that request and response filters share while a request goes
//! through the gateway: values that may be modified by a filter, the rule and
//! backend chosen for the request, the action the filters asked for and the
//! filters' own key/value extensions.
use vstd::prelude::*;

use crate::config::gateway_dto::{protocol_name, SgProtocol};
use crate::instance::{SgBackendInst, SgHttpRouteMatchInst, SgHttpRouteRuleInst};
use crate::plugins::filters::SgPluginFilterKind;
use crate::text::{chars_of, decimal_spec, push_decimal, seq_eq, string_push};
use crate::error::SgError;
use crate::plugin::filter::{apply_removes, apply_sets, check_names, names_ok, removed_name, set_value_for, sets_ok, values_after_sets, copy_bytes, copy_headers, header_name_of, header_value_ok, insert_named, remove_named, lemma_same_headers_values, parse_header_name, parse_header_value, same_headers, values_of};
use vstd::string::StringSliceAdditionalSpecFns;

verus! {

/* ------------------------------------------------------------------------
   A value that filters may modify
   ------------------------------------------------------------------------ */

/// A value as it arrived, together with the value a filter set in its place.
#[derive(Debug)]
pub struct MaybeModified<T> {
    raw: T,
    modified: Option<T>,
}

impl<T> MaybeModified<T> {
    /// The value as it arrived.
    pub closed spec fn raw_value(&self) -> T {
        self.raw
    }

    /// The value a filter set, if any.
    pub closed spec fn modified_value(&self) -> Option<T> {
        self.modified
    }

    /// The value in effect: the modified one if there is one, else the raw one.
    pub open spec fn current(&self) -> T {
        match self.modified_value() {
            Some(v) => v,
            None => self.raw_value(),
        }
    }

    /// An unmodified value.
    pub fn new(value: T) -> (r: Self)
        ensures
            r.raw_value() == value,
            r.modified_value() is None,
    {
        MaybeModified { raw: value, modified: None }
    }

    /// Replaces the raw value and forgets any modification.
    pub fn reset(&mut self, value: T)
        ensures
            final(self).raw_value() == value,
            final(self).modified_value() is None,
    {
        self.raw = value;
        self.modified = None;
    }

    /// The value as it arrived.
    pub fn get_raw(&self) -> (r: &T)
        ensures
            *r == self.raw_value(),
    {
        &self.raw
    }

    /// The value in effect.
    pub fn get(&self) -> (r: &T)
        ensures
            *r == self.current(),
    {
        match &self.modified {
            Some(v) => v,
            None => &self.raw,
        }
    }

    /// Sets the modified value and returns the one it replaces.
    pub fn replace(&mut self, val: T) -> (r: Option<T>)
        ensures
            r == old(self).modified_value(),
            final(self).modified_value() == Some(val),
            final(self).raw_value() == old(self).raw_value(),
    {
        let prev = self.modified.take();
        self.modified = Some(val);
        prev
    }

    /// Sets the modified value.
    pub fn set(&mut self, val: T)
        ensures
            final(self).modified_value() == Some(val),
            final(self).raw_value() == old(self).raw_value(),
    {
        self.modified = Some(val);
    }

    /// Mutable access to the modified value, if there is one.
    pub fn get_modified_mut(&mut self) -> (r: Option<&mut T>)
        ensures
            final(self).raw_value() == old(self).raw_value(),
            match old(self).modified_value() {
                None => r is None && final(self).modified_value() is None,
                Some(v) => r is Some && *r->0 == v && final(self).modified_value() == Some(*final(r->0)),
            },
    {
        self.modified.as_mut()
    }

    /// Whether a filter set a value.
    pub fn is_modified(&self) -> (r: bool)
        ensures
            r == (self.modified_value() is Some),
    {
        self.modified.is_some()
    }
}

impl<T: Clone> MaybeModified<T> {
    /// Mutable access to the value in effect; an unmodified value is first
    /// copied into the modified slot, so the raw value stays as it arrived.
    pub fn get_mut(&mut self) -> (r: &mut T)
        ensures
            final(self).raw_value() == old(self).raw_value(),
            final(self).modified_value() == Some(*final(r)),
            match old(self).modified_value() {
                Some(v) => *r == v,
                None => cloned(old(self).raw_value(), *r),
            },
    {
        let copy = self.raw.clone();
        self.modified.get_or_insert(copy)
    }
}

/// A change of a value that may be modified: a value set (by `set`,
/// `replace`, or a write through `get_mut` or `get_modified_mut`), or a new
/// raw value (by `reset`).
pub enum MaybeModifiedOp<T> {
    SetTo(T),
    ResetTo(T),
}

/// Whether `after` is `before` changed by `op`, as the methods' contracts
/// say.
pub open spec fn maybe_modified_step<T>(before: MaybeModified<T>, op: MaybeModifiedOp<T>, after: MaybeModified<T>) -> bool {
    match op {
        MaybeModifiedOp::SetTo(v) => after.modified_value() == Some(v) && after.raw_value() == before.raw_value(),
        MaybeModifiedOp::ResetTo(v) => after.modified_value() is None && after.raw_value() == v,
    }
}

/// The raw value after the changes: the value of the last reset, else the
/// one at the start.
pub open spec fn raw_after<T>(raw: T, ops: Seq<MaybeModifiedOp<T>>) -> T
    decreases ops.len(),
{
    if ops.len() == 0 {
        raw
    } else {
        match ops.last() {
            MaybeModifiedOp::ResetTo(v) => v,
            MaybeModifiedOp::SetTo(_) => raw_after(raw, ops.drop_last()),
        }
    }
}

/// The value in effect after the changes, from a value just made or reset
/// to `raw`: the value last set since the last reset, else the raw value
/// of the last reset, else `raw`.
pub open spec fn current_after<T>(raw: T, ops: Seq<MaybeModifiedOp<T>>) -> T
    decreases ops.len(),
{
    if ops.len() == 0 {
        raw
    } else {
        match ops.last() {
            MaybeModifiedOp::SetTo(v) => v,
            MaybeModifiedOp::ResetTo(v) => v,
        }
    }
}

/// Over any run of changes from a value just made or reset (nothing
/// modified): the value in effect is the one last set since the last
/// reset, else the raw value; the raw value is that of the last reset, else
/// the one it started with; and the value is modified exactly when the last
/// change set a value.
pub proof fn lemma_maybe_modified_run<T>(states: Seq<MaybeModified<T>>, ops: Seq<MaybeModifiedOp<T>>)
    requires
        states.len() == ops.len() + 1,
        states[0].modified_value() is None,
        forall|i: int| 0 <= i < ops.len() ==> maybe_modified_step(states[i], #[trigger] ops[i], states[i + 1]),
    ensures
        states.last().current() == current_after(states[0].raw_value(), ops),
        states.last().raw_value() == raw_after(states[0].raw_value(), ops),
        states.last().modified_value() is Some <==> (ops.len() > 0 && ops.last() is SetTo),
        states.last().modified_value() is None ==> states.last().current() == states.last().raw_value(),
    decreases ops.len(),
{
    if ops.len() > 0 {
        let s2 = states.drop_last();
        let o2 = ops.drop_last();
        assert forall|i: int| 0 <= i < o2.len() implies maybe_modified_step(s2[i], #[trigger] o2[i], s2[i + 1]) by {
            assert(o2[i] == ops[i]);
            assert(maybe_modified_step(states[i], ops[i], states[i + 1]));
        }
        lemma_maybe_modified_run(s2, o2);
        assert(maybe_modified_step(states[ops.len() - 1], ops[ops.len() - 1], states[ops.len() as int]));
        assert(s2.last() == states[ops.len() - 1]);
    }
}

/// After `set`, `get` gives the value set and `get_raw` the value as it
/// arrived; after `reset`, nothing is modified and `get` gives the new value.
pub proof fn lemma_maybe_modified_set_reset<T>(m: MaybeModified<T>, set_to: MaybeModified<T>, reset_to: MaybeModified<T>, v: T, w: T)
    requires
        set_to.modified_value() == Some(v),
        set_to.raw_value() == m.raw_value(),
        reset_to.raw_value() == w,
        reset_to.modified_value() is None,
    ensures
        set_to.current() == v,
        set_to.raw_value() == m.raw_value(),
        reset_to.current() == w,
{
}

/* ------------------------------------------------------------------------
   Backends available to a request
   ------------------------------------------------------------------------ */

/// Same as [`SgBackendInst`], but it emphasizes that the backend is available
/// for use in the current request.
#[derive(Debug, Clone)]
pub struct AvailableBackendInst {
    pub name_or_host: String,
    pub namespace: Option<String>,
    pub port: u16,
    pub timeout_ms: Option<u64>,
    pub protocol: Option<SgProtocol>,
    pub weight: Option<u16>,
}

/// Whether an available backend carries the fields of a configured one.
pub open spec fn same_backend(a: AvailableBackendInst, b: SgBackendInst) -> bool {
    &&& a.name_or_host@ == b.name_or_host@
    &&& match (a.namespace, b.namespace) {
        (Some(x), Some(y)) => x@ == y@,
        (None, None) => true,
        _ => false,
    }
    &&& a.port == b.port
    &&& a.timeout_ms == b.timeout_ms
    &&& a.protocol == b.protocol
    &&& a.weight == b.weight
}

/// The scheme a backend is reached with: its protocol, HTTP by default.
pub open spec fn backend_scheme(p: Option<SgProtocol>) -> SgProtocol {
    match p {
        Some(x) => x,
        None => SgProtocol::Http,
    }
}

/// The base URL of a backend: `scheme://host[.namespace][:port]`, where the
/// port is left out when it is 0 or the scheme's default (80 for HTTP, 443
/// for HTTPS).
pub open spec fn base_url_spec(name: Seq<char>, namespace: Option<Seq<char>>, port: u16, protocol: Option<SgProtocol>) -> Seq<char> {
    let scheme = backend_scheme(protocol);
    let host = match namespace {
        Some(n) => name + seq!['.'] + n,
        None => name,
    };
    let default_port = ((port == 0 || port == 80) && scheme == SgProtocol::Http)
        || ((port == 0 || port == 443) && scheme == SgProtocol::Https);
    let port_part = if default_port {
        Seq::<char>::empty()
    } else {
        seq![':'] + decimal_spec(port as nat)
    };
    protocol_name(scheme) + seq![':', '/', '/'] + host + port_part
}

/// The namespace of a backend as plain text.
pub open spec fn opt_text(s: Option<String>) -> Option<Seq<char>> {
    match s {
        Some(x) => Some(x@),
        None => None,
    }
}

impl AvailableBackendInst {
    /// Copies the fields of a configured backend.
    pub fn clone_from(value: &SgBackendInst) -> (r: Self)
        ensures
            same_backend(r, *value),
    {
        AvailableBackendInst {
            name_or_host: value.name_or_host.clone(),
            namespace: match &value.namespace {
                Some(n) => Some(n.clone()),
                None => None,
            },
            port: value.port,
            timeout_ms: value.timeout_ms,
            protocol: value.protocol,
            weight: value.weight,
        }
    }

    /// The URL the backend is reached at, see [`base_url_spec`].
    pub fn get_base_url(&self) -> (r: String)
        ensures
            r@ == base_url_spec(self.name_or_host@, opt_text(self.namespace), self.port, self.protocol),
    {
        let scheme = match self.protocol {
            Some(p) => p,
            None => SgProtocol::Http,
        };
        let mut out = String::new();
        out.append(scheme.as_str());
        out.append("://");
        out.append(self.name_or_host.as_str());
        match &self.namespace {
            Some(n) => {
                out.append(".");
                out.append(n.as_str());
            },
            None => {},
        }
        let default_port = ((self.port == 0 || self.port == 80) && scheme == SgProtocol::Http)
            || ((self.port == 0 || self.port == 443) && scheme == SgProtocol::Https);
        if !default_port {
            out.append(":");
            push_decimal(&mut out, self.port as u64);
        }
        proof {
            reveal_strlit("://");
            reveal_strlit(".");
            reveal_strlit(":");
        }
        out
    }
}

/* ------------------------------------------------------------------------
   The rule chosen for a request
   ------------------------------------------------------------------------ */

/// The rule chosen for a request: the match that selected it, its backends
/// and its timeout.
#[derive(Debug)]
pub struct ChosenHttpRouteRuleInst {
    pub matched_match: Option<SgHttpRouteMatchInst>,
    pub available_backends: Vec<AvailableBackendInst>,
    pub timeout_ms: Option<u64>,
}

impl ChosenHttpRouteRuleInst {
    /// Records the chosen rule: its backends (none when it has none), its
    /// timeout and the match that selected it.
    pub fn clone_from(chose_route_rule: &SgHttpRouteRuleInst, matched_match_inst: Option<&SgHttpRouteMatchInst>) -> (r: Self)
        ensures
            r.timeout_ms == chose_route_rule.timeout_ms,
            r.matched_match is Some == matched_match_inst is Some,
            matched_match_inst matches Some(m) ==> cloned(*m, r.matched_match->0),
            match chose_route_rule.backends {
                Some(bs) => r.available_backends@.len() == bs@.len()
                    && forall|i: int| 0 <= i < bs@.len() ==> #[trigger] same_backend(r.available_backends@[i], bs@[i]),
                None => r.available_backends@.len() == 0,
            },
    {
        let mut available_backends: Vec<AvailableBackendInst> = Vec::new();
        match &chose_route_rule.backends {
            Some(bs) => {
                let mut i: usize = 0;
                while i < bs.len()
                    invariant
                        i <= bs@.len(),
                        available_backends@.len() == i,
                        forall|j: int| 0 <= j < i ==> #[trigger] same_backend(available_backends@[j], bs@[j]),
                    decreases bs.len() - i,
                {
                    available_backends.push(AvailableBackendInst::clone_from(&bs[i]));
                    i = i + 1;
                }
            },
            None => {},
        }
        ChosenHttpRouteRuleInst {
            matched_match: match matched_match_inst {
                Some(m) => Some(m.clone()),
                None => None,
            },
            available_backends,
            timeout_ms: chose_route_rule.timeout_ms,
        }
    }
}

/* ------------------------------------------------------------------------
   What the filters ask for
   ------------------------------------------------------------------------ */

/// The action to be taken after the request filters ran.
#[derive(Debug, Clone, Copy, PartialEq, Eq, Structural)]
pub enum SgRouteFilterRequestAction {
    /// No action was set: the request goes on to the chosen backend.
    Proceed,
    /// Forward the request to the URI a filter set.
    Redirect,
    /// Answer from the context, without a backend request.
    Response,
}

/// A role of an authenticated user.
#[derive(Debug, Clone)]
pub struct SGRoleInfo {
    pub id: String,
    pub name: Option<String>,
}

/// An authenticated user.
#[derive(Debug, Clone)]
pub struct SGIdentInfo {
    pub id: String,
    pub name: Option<String>,
    pub roles: Vec<SGRoleInfo>,
}

/* ------------------------------------------------------------------------
   Extensions: a small map from keys to values
   ------------------------------------------------------------------------ */

/// Whether no key occurs twice.
pub open spec fn distinct_keys(s: Seq<(String, String)>) -> bool {
    forall|i: int, j: int| 0 <= i < s.len() && 0 <= j < s.len() && i != j ==> #[trigger] s[i].0@ != #[trigger] s[j].0@
}

/// The index of the entry with key `k`.
pub open spec fn key_index(s: Seq<(String, String)>, k: Seq<char>) -> Option<int> {
    if exists|i: int| 0 <= i < s.len() && #[trigger] s[i].0@ == k {
        Some(choose|i: int| 0 <= i < s.len() && #[trigger] s[i].0@ == k)
    } else {
        None
    }
}

/// The entries as a map from key to value.
pub open spec fn ext_map(s: Seq<(String, String)>) -> Map<Seq<char>, Seq<char>> {
    Map::new(
        |k: Seq<char>| key_index(s, k) is Some,
        |k: Seq<char>| s[key_index(s, k)->0].1@,
    )
}

/// Finds the entry with key `key`.
fn ext_find(s: &Vec<(String, String)>, key: &str) -> (r: Option<usize>)
    requires
        distinct_keys(s@),
    ensures
        match r {
            Some(i) => i < s@.len() && s@[i as int].0@ == key@ && key_index(s@, key@) == Some(i as int),
            None => key_index(s@, key@) is None,
        },
{
    let kc = chars_of(key);
    let mut i: usize = 0;
    while i < s.len()
        invariant
            i <= s@.len(),
            kc@ == key@,
            distinct_keys(s@),
            forall|j: int| 0 <= j < i ==> #[trigger] s@[j].0@ != key@,
        decreases s.len() - i,
    {
        let ec = chars_of(s[i].0.as_str());
        if seq_eq(ec.as_slice(), kc.as_slice()) {
            assert(s@[i as int].0@ == key@);
            proof {
                let c = choose|j: int| 0 <= j < s@.len() && #[trigger] s@[j].0@ == key@;
                assert(s@[c].0@ == key@);
                assert(c == i as int);
            }
            return Some(i);
        }
        i = i + 1;
    }
    None
}

/* ------------------------------------------------------------------------
   The context
   ------------------------------------------------------------------------ */

/// The HTTP version of a request.
#[derive(Debug, Clone, Copy, PartialEq, Eq, Structural)]
pub enum SgHttpVersion {
    Http09,
    Http10,
    Http11,
    Http2,
    Http3,
}

/// Mutable access to the header map in effect; an unmodified map is first
/// copied into the modified slot, so the map as it arrived stays as it was.
fn current_headers_mut(m: &mut MaybeModified<Vec<(String, Vec<u8>)>>) -> (r: &mut Vec<(String, Vec<u8>)>)
    ensures
        final(m).raw_value() == old(m).raw_value(),
        final(m).modified_value() == Some(*final(r)),
        same_headers((*r)@, old(m).current()@),
{
    if m.modified.is_none() {
        let c = copy_headers(&m.raw);
        m.modified = Some(c);
    }
    proof {
        lemma_same_headers_refl(m.modified->0@);
    }
    m.modified.as_mut().unwrap()
}

/// Every header map has the same entries as itself.
proof fn lemma_same_headers_refl(a: Seq<(String, Vec<u8>)>)
    ensures
        same_headers(a, a),
{
}

/// Sets the header `key` to `value` in a header map that may be modified:
/// the map in effect becomes the modified one first; then a key or value
/// that `http` does not accept is a `FormatError`.
fn set_header_text(m: &mut MaybeModified<Vec<(String, Vec<u8>)>>, key: &str, value: &str) -> (r: Result<(), SgError>)
    ensures
        final(m).raw_value() == old(m).raw_value(),
        final(m).modified_value() is Some,
        match (header_name_of(key@), header_value_ok(value@)) {
            (Some(n), true) => r is Ok
                && values_of(final(m).current()@, n) == seq![value.spec_bytes()]
                && forall|k: Seq<char>| k != n ==> #[trigger] values_of(final(m).current()@, k) == values_of(old(m).current()@, k),
            _ => r == Err::<(), SgError>(SgError::FormatError)
                && same_headers(final(m).current()@, old(m).current()@),
        },
{
    let hs = current_headers_mut(m);
    let name = match parse_header_name(key) {
        Some(n) => n,
        None => {
            return Err(SgError::FormatError);
        },
    };
    let v = match parse_header_value(value) {
        Some(v) => v,
        None => {
            return Err(SgError::FormatError);
        },
    };
    let ghost before = hs@;
    insert_named(hs, name, v);
    proof {
        lemma_same_headers_values(before, old(m).current()@);
    }
    Ok(())
}

/// Sets each of the headers in `sets`, in order, in a header map that may be
/// modified; the map in effect becomes the modified one first.
fn headers_set_each(m: &mut MaybeModified<Vec<(String, Vec<u8>)>>, sets: &Vec<(String, String)>) -> (r: Result<(), SgError>)
    ensures
        final(m).raw_value() == old(m).raw_value(),
        sets@.len() > 0 ==> final(m).modified_value() is Some,
        sets@.len() == 0 ==> *final(m) == *old(m),
        r is Ok <==> sets_ok(sets@),
        r is Err ==> r == Err::<(), SgError>(SgError::FormatError),
        r is Ok ==> forall|n: Seq<char>| #[trigger] values_of(final(m).current()@, n) == values_after_sets(old(m).current()@, sets@, n),
{
    if sets.len() == 0 {
        proof {
            assert forall|n: Seq<char>| #[trigger] values_of(m.current()@, n) == values_after_sets(m.current()@, sets@, n) by {
                assert(set_value_for(sets@, n) is None);
            }
        }
        return Ok(());
    }
    let hs = current_headers_mut(m);
    let ghost before = hs@;
    let r = apply_sets(hs, sets);
    proof {
        lemma_same_headers_values(before, old(m).current()@);
        if r is Ok {
            assert forall|n: Seq<char>| #[trigger] values_after_sets(before, sets@, n) == values_after_sets(old(m).current()@, sets@, n) by {}
        }
    }
    r
}

/// The request as filters see it: its method, URI, version and header
/// fields, each as it arrived and as filters modified it, its body and the
/// address it came from.
#[derive(Debug)]
pub struct SgCtxRequest {
    pub method: MaybeModified<String>,
    pub uri: MaybeModified<String>,
    pub version: MaybeModified<SgHttpVersion>,
    pub body: Vec<u8>,
    pub headers: MaybeModified<Vec<(String, Vec<u8>)>>,
    pub remote_addr: String,
}

impl SgCtxRequest {
    /// A request that no filter has touched yet.
    pub fn new(method: String, uri: String, version: SgHttpVersion, headers: Vec<(String, Vec<u8>)>, body: Vec<u8>, remote_addr: String) -> (r: Self)
        ensures
            r.method.raw_value() == method && r.method.modified_value() is None,
            r.uri.raw_value() == uri && r.uri.modified_value() is None,
            r.version.raw_value() == version && r.version.modified_value() is None,
            r.headers.raw_value() == headers && r.headers.modified_value() is None,
            r.body == body,
            r.remote_addr == remote_addr,
    {
        SgCtxRequest {
            method: MaybeModified::new(method),
            uri: MaybeModified::new(uri),
            version: MaybeModified::new(version),
            body,
            headers: MaybeModified::new(headers),
            remote_addr,
        }
    }

    /// The method in effect.
    pub fn get_method(&self) -> (r: &String)
        ensures
            *r == self.method.current(),
    {
        self.method.get()
    }

    /// Sets the method; the one that arrived is kept as the raw value.
    pub fn set_method(&mut self, method: String)
        ensures
            final(self).method.modified_value() == Some(method),
            final(self).method.raw_value() == old(self).method.raw_value(),
            final(self).uri == old(self).uri,
            final(self).version == old(self).version,
            final(self).headers == old(self).headers,
            final(self).body == old(self).body,
            final(self).remote_addr == old(self).remote_addr,
    {
        self.method.set(method)
    }

    /// The method as it arrived.
    pub fn get_method_raw(&self) -> (r: &String)
        ensures
            *r == self.method.raw_value(),
    {
        self.method.get_raw()
    }

    /// The URI in effect.
    pub fn get_uri(&self) -> (r: &String)
        ensures
            *r == self.uri.current(),
    {
        self.uri.get()
    }

    /// Sets the URI; the one that arrived is kept as the raw value.
    pub fn set_uri(&mut self, uri: String)
        ensures
            final(self).uri.modified_value() == Some(uri),
            final(self).uri.raw_value() == old(self).uri.raw_value(),
            final(self).method == old(self).method,
            final(self).version == old(self).version,
            final(self).headers == old(self).headers,
            final(self).body == old(self).body,
            final(self).remote_addr == old(self).remote_addr,
    {
        self.uri.set(uri)
    }

    /// The URI as it arrived.
    pub fn get_uri_raw(&self) -> (r: &String)
        ensures
            *r == self.uri.raw_value(),
    {
        self.uri.get_raw()
    }

    /// The version in effect.
    pub fn get_version(&self) -> (r: SgHttpVersion)
        ensures
            r == self.version.current(),
    {
        *self.version.get()
    }

    /// Sets the version; the one that arrived is kept as the raw value.
    pub fn set_version(&mut self, version: SgHttpVersion)
        ensures
            final(self).version.modified_value() == Some(version),
            final(self).version.raw_value() == old(self).version.raw_value(),
            final(self).method == old(self).method,
            final(self).uri == old(self).uri,
            final(self).headers == old(self).headers,
            final(self).body == old(self).body,
            final(self).remote_addr == old(self).remote_addr,
    {
        self.version.set(version)
    }

    /// The version as it arrived.
    pub fn get_version_raw(&self) -> (r: SgHttpVersion)
        ensures
            r == self.version.raw_value(),
    {
        *self.version.get_raw()
    }

    /// The header map in effect.
    pub fn get_headers(&self) -> (r: &Vec<(String, Vec<u8>)>)
        ensures
            *r == self.headers.current(),
    {
        self.headers.get()
    }

    /// Mutable access to the header map in effect: an unmodified map is
    /// first copied into the modified slot.
    pub fn get_headers_mut(&mut self) -> (r: &mut Vec<(String, Vec<u8>)>)
        ensures
            final(self).headers.raw_value() == old(self).headers.raw_value(),
            final(self).headers.modified_value() == Some(*final(r)),
            same_headers((*r)@, old(self).headers.current()@),
            final(self).method == old(self).method,
            final(self).uri == old(self).uri,
            final(self).version == old(self).version,
            final(self).body == old(self).body,
            final(self).remote_addr == old(self).remote_addr,
    {
        current_headers_mut(&mut self.headers)
    }

    /// Replaces the header map in effect.
    pub fn set_headers(&mut self, req_headers: Vec<(String, Vec<u8>)>)
        ensures
            final(self).headers.modified_value() == Some(req_headers),
            final(self).headers.raw_value() == old(self).headers.raw_value(),
            final(self).method == old(self).method,
            final(self).uri == old(self).uri,
            final(self).version == old(self).version,
            final(self).body == old(self).body,
            final(self).remote_addr == old(self).remote_addr,
    {
        self.headers.set(req_headers)
    }

    /// Sets the header `key` to `value`, replacing its values. A key or
    /// value that `http` does not accept is a `FormatError`; the header map
    /// in effect has then become the modified one, with the same entries.
    pub fn set_header_str(&mut self, key: &str, value: &str) -> (r: Result<(), SgError>)
        ensures
            final(self).headers.raw_value() == old(self).headers.raw_value(),
            final(self).headers.modified_value() is Some,
            match (header_name_of(key@), header_value_ok(value@)) {
                (Some(n), true) => r is Ok
                    && values_of(final(self).headers.current()@, n) == seq![value.spec_bytes()]
                    && forall|k: Seq<char>| k != n ==> #[trigger] values_of(final(self).headers.current()@, k) == values_of(old(self).headers.current()@, k),
                _ => r == Err::<(), SgError>(SgError::FormatError)
                    && same_headers(final(self).headers.current()@, old(self).headers.current()@),
            },
            final(self).method == old(self).method,
            final(self).uri == old(self).uri,
            final(self).version == old(self).version,
            final(self).body == old(self).body,
            final(self).remote_addr == old(self).remote_addr,
    {
        set_header_text(&mut self.headers, key, value)
    }

    /// Sets the header named `key` (a valid header name, in lower case) to
    /// `value`; a value that `http` does not accept is a `FormatError`.
    pub fn set_header(&mut self, key: &str, value: &str) -> (r: Result<(), SgError>)
        requires
            header_name_of(key@) == Some(key@),
        ensures
            final(self).headers.raw_value() == old(self).headers.raw_value(),
            final(self).headers.modified_value() is Some,
            if header_value_ok(value@) {
                r is Ok
                    && values_of(final(self).headers.current()@, key@) == seq![value.spec_bytes()]
                    && forall|k: Seq<char>| k != key@ ==> #[trigger] values_of(final(self).headers.current()@, k) == values_of(old(self).headers.current()@, k)
            } else {
                r == Err::<(), SgError>(SgError::FormatError)
                    && same_headers(final(self).headers.current()@, old(self).headers.current()@)
            },
            final(self).method == old(self).method,
            final(self).uri == old(self).uri,
            final(self).version == old(self).version,
            final(self).body == old(self).body,
            final(self).remote_addr == old(self).remote_addr,
    {
        set_header_text(&mut self.headers, key, value)
    }

    /// The header map as it arrived.
    pub fn get_headers_raw(&self) -> (r: &Vec<(String, Vec<u8>)>)
        ensures
            *r == self.headers.raw_value(),
    {
        self.headers.get_raw()
    }

    /// Sets each of the headers in `sets`, in order, as
    /// [`set_header_str`](Self::set_header_str) does; the first name or
    /// value that `http` does not accept is a `FormatError`.
    pub fn set_headers_each(&mut self, sets: &Vec<(String, String)>) -> (r: Result<(), SgError>)
        ensures
            final(self).headers.raw_value() == old(self).headers.raw_value(),
            sets@.len() > 0 ==> final(self).headers.modified_value() is Some,
            sets@.len() == 0 ==> final(self).headers == old(self).headers,
            r is Ok <==> sets_ok(sets@),
            r is Err ==> r == Err::<(), SgError>(SgError::FormatError),
            r is Ok ==> forall|n: Seq<char>| #[trigger] values_of(final(self).headers.current()@, n) == values_after_sets(old(self).headers.current()@, sets@, n),
            final(self).method == old(self).method,
            final(self).uri == old(self).uri,
            final(self).version == old(self).version,
            final(self).body == old(self).body,
            final(self).remote_addr == old(self).remote_addr,
    {
        headers_set_each(&mut self.headers, sets)
    }

    /// Removes each of the listed headers; a text that is not a header name
    /// is a `FormatError`.
    pub fn remove_headers_each(&mut self, remove: &Vec<String>) -> (r: Result<(), SgError>)
        ensures
            final(self).headers.raw_value() == old(self).headers.raw_value(),
            r is Ok <==> names_ok(remove@),
            r is Err ==> r == Err::<(), SgError>(SgError::FormatError),
            r is Ok && remove@.len() > 0 ==> final(self).headers.modified_value() is Some,
            r is Ok && remove@.len() == 0 ==> final(self).headers == old(self).headers,
            r is Ok ==> forall|n: Seq<char>| #[trigger] values_of(final(self).headers.current()@, n) == if removed_name(remove@, n) {
                Seq::<Seq<u8>>::empty()
            } else {
                values_of(old(self).headers.current()@, n)
            },
            final(self).method == old(self).method,
            final(self).uri == old(self).uri,
            final(self).version == old(self).version,
            final(self).body == old(self).body,
            final(self).remote_addr == old(self).remote_addr,
    {
        if !check_names(remove) {
            return Err(SgError::FormatError);
        }
        if remove.len() > 0 {
            let hs = current_headers_mut(&mut self.headers);
            let ghost before = hs@;
            apply_removes(hs, remove);
            proof {
                lemma_same_headers_values(before, old(self).headers.current()@);
            }
        }
        Ok(())
    }

    /// The address the request came from.
    pub fn get_remote_addr(&self) -> (r: &String)
        ensures
            *r == self.remote_addr,
    {
        &self.remote_addr
    }

    /// Takes the body out, leaving an empty one.
    pub fn take_body(&mut self) -> (r: Vec<u8>)
        ensures
            r == old(self).body,
            final(self).body@.len() == 0,
            final(self).method == old(self).method,
            final(self).uri == old(self).uri,
            final(self).version == old(self).version,
            final(self).headers == old(self).headers,
            final(self).remote_addr == old(self).remote_addr,
    {
        let mut b: Vec<u8> = Vec::new();
        std::mem::swap(&mut b, &mut self.body);
        b
    }

    /// Puts `body` in place of the body and returns the one it replaces.
    pub fn replace_body(&mut self, body: Vec<u8>) -> (r: Vec<u8>)
        ensures
            r == old(self).body,
            final(self).body == body,
            final(self).method == old(self).method,
            final(self).uri == old(self).uri,
            final(self).version == old(self).version,
            final(self).headers == old(self).headers,
            final(self).remote_addr == old(self).remote_addr,
    {
        let mut b = body;
        std::mem::swap(&mut b, &mut self.body);
        b
    }

    /// Puts `body` in place of the body.
    pub fn set_body(&mut self, body: Vec<u8>)
        ensures
            final(self).body == body,
            final(self).method == old(self).method,
            final(self).uri == old(self).uri,
            final(self).version == old(self).version,
            final(self).headers == old(self).headers,
            final(self).remote_addr == old(self).remote_addr,
    {
        let _ = self.replace_body(body);
    }

    /// The body's bytes; the body stays in place.
    pub fn dump_body(&mut self) -> (r: Vec<u8>)
        ensures
            r@ == old(self).body@,
            final(self).body@ == old(self).body@,
            final(self).method == old(self).method,
            final(self).uri == old(self).uri,
            final(self).version == old(self).version,
            final(self).headers == old(self).headers,
            final(self).remote_addr == old(self).remote_addr,
    {
        let bytes = self.take_body();
        let copy = copy_bytes(&bytes);
        self.set_body(bytes);
        copy
    }
}

/// The response as filters see it: its status and header fields, its body,
/// and the error that took the place of a backend response, if any.
#[derive(Debug)]
pub struct SgCtxResponse {
    pub status_code: MaybeModified<u16>,
    pub headers: MaybeModified<Vec<(String, Vec<u8>)>>,
    pub body: Vec<u8>,
    /// The error that took the place of a backend response.
    pub resp_err: Option<SgError>,
}

impl SgCtxResponse {
    /// The error that took the place of a backend response.
    pub open spec fn error(&self) -> Option<SgError> {
        self.resp_err
    }

    /// An empty `200 OK` response.
    pub fn new() -> (r: Self)
        ensures
            r.status_code.current() == 200,
            r.status_code.modified_value() is None,
            r.headers.current()@.len() == 0,
            r.headers.modified_value() is None,
            r.body@.len() == 0,
            r.error() is None,
    {
        SgCtxResponse {
            status_code: MaybeModified::new(200),
            headers: MaybeModified::new(Vec::new()),
            body: Vec::new(),
            resp_err: None,
        }
    }

    /// Whether the response is an error in place of a backend response.
    pub fn is_resp_error(&self) -> (r: bool)
        ensures
            r == (self.error() is Some),
    {
        self.resp_err.is_some()
    }

    /// The status in effect.
    pub fn get_status_code(&self) -> (r: u16)
        ensures
            r == self.status_code.current(),
    {
        *self.status_code.get()
    }

    /// Sets the status; the one the backend gave is kept as the raw value.
    pub fn set_status_code(&mut self, status_code: u16)
        ensures
            final(self).status_code.modified_value() == Some(status_code),
            final(self).status_code.raw_value() == old(self).status_code.raw_value(),
            final(self).headers == old(self).headers,
            final(self).body == old(self).body,
            final(self).resp_err == old(self).resp_err,
    {
        self.status_code.set(status_code)
    }

    /// The status the backend gave.
    pub fn get_status_code_raw(&self) -> (r: u16)
        ensures
            r == self.status_code.raw_value(),
    {
        *self.status_code.get_raw()
    }

    /// The header map in effect.
    pub fn get_headers(&self) -> (r: &Vec<(String, Vec<u8>)>)
        ensures
            *r == self.headers.current(),
    {
        self.headers.get()
    }

    /// The header map the backend gave.
    pub fn get_headers_raw(&self) -> (r: &Vec<(String, Vec<u8>)>)
        ensures
            *r == self.headers.raw_value(),
    {
        self.headers.get_raw()
    }

    /// Mutable access to the header map in effect: an unmodified map is
    /// first copied into the modified slot.
    pub fn get_headers_mut(&mut self) -> (r: &mut Vec<(String, Vec<u8>)>)
        ensures
            final(self).headers.raw_value() == old(self).headers.raw_value(),
            final(self).headers.modified_value() == Some(*final(r)),
            same_headers((*r)@, old(self).headers.current()@),
            final(self).status_code == old(self).status_code,
            final(self).body == old(self).body,
            final(self).resp_err == old(self).resp_err,
    {
        current_headers_mut(&mut self.headers)
    }

    /// Replaces the header map in effect.
    pub fn set_headers(&mut self, resp_headers: Vec<(String, Vec<u8>)>)
        ensures
            final(self).headers.modified_value() == Some(resp_headers),
            final(self).headers.raw_value() == old(self).headers.raw_value(),
            final(self).status_code == old(self).status_code,
            final(self).body == old(self).body,
            final(self).resp_err == old(self).resp_err,
    {
        self.headers.set(resp_headers)
    }

    /// Sets the header `key` to `value`, replacing its values. A key or
    /// value that `http` does not accept is a `FormatError`; the header map
    /// in effect has then become the modified one, with the same entries.
    pub fn set_header_str(&mut self, key: &str, value: &str) -> (r: Result<(), SgError>)
        ensures
            final(self).headers.raw_value() == old(self).headers.raw_value(),
            final(self).headers.modified_value() is Some,
            match (header_name_of(key@), header_value_ok(value@)) {
                (Some(n), true) => r is Ok
                    && values_of(final(self).headers.current()@, n) == seq![value.spec_bytes()]
                    && forall|k: Seq<char>| k != n ==> #[trigger] values_of(final(self).headers.current()@, k) == values_of(old(self).headers.current()@, k),
                _ => r == Err::<(), SgError>(SgError::FormatError)
                    && same_headers(final(self).headers.current()@, old(self).headers.current()@),
            },
            final(self).status_code == old(self).status_code,
            final(self).body == old(self).body,
            final(self).resp_err == old(self).resp_err,
    {
        set_header_text(&mut self.headers, key, value)
    }

    /// Sets the header named `key` (a valid header name, in lower case) to
    /// `value`; a value that `http` does not accept is a `FormatError`.
    pub fn set_header(&mut self, key: &str, value: &str) -> (r: Result<(), SgError>)
        requires
            header_name_of(key@) == Some(key@),
        ensures
            final(self).headers.raw_value() == old(self).headers.raw_value(),
            final(self).headers.modified_value() is Some,
            if header_value_ok(value@) {
                r is Ok
                    && values_of(final(self).headers.current()@, key@) == seq![value.spec_bytes()]
                    && forall|k: Seq<char>| k != key@ ==> #[trigger] values_of(final(self).headers.current()@, k) == values_of(old(self).headers.current()@, k)
            } else {
                r == Err::<(), SgError>(SgError::FormatError)
                    && same_headers(final(self).headers.current()@, old(self).headers.current()@)
            },
            final(self).status_code == old(self).status_code,
            final(self).body == old(self).body,
            final(self).resp_err == old(self).resp_err,
    {
        set_header_text(&mut self.headers, key, value)
    }

    /// Removes the header named `key` (a valid header name, in lower case)
    /// from the modified header map; an unmodified map is left as it is.
    pub fn remove_header(&mut self, key: &str) -> (r: Result<(), SgError>)
        requires
            header_name_of(key@) == Some(key@),
        ensures
            r is Ok,
            final(self).headers.raw_value() == old(self).headers.raw_value(),
            match old(self).headers.modified_value() {
                None => final(self).headers == old(self).headers,
                Some(h) => final(self).headers.modified_value() matches Some(nh)
                    && values_of(nh@, key@) == Seq::<Seq<u8>>::empty()
                    && forall|k: Seq<char>| k != key@ ==> #[trigger] values_of(nh@, k) == values_of(h@, k),
            },
            final(self).status_code == old(self).status_code,
            final(self).body == old(self).body,
            final(self).resp_err == old(self).resp_err,
    {
        match self.headers.get_modified_mut() {
            Some(headers) => remove_named(headers, key),
            None => {},
        }
        Ok(())
    }

    /// Removes the header `key` from the modified header map; an unmodified
    /// map is left as it is. With a modified map, a key that `http` does not
    /// accept is a `FormatError`.
    pub fn remove_header_str(&mut self, key: &str) -> (r: Result<(), SgError>)
        ensures
            final(self).headers.raw_value() == old(self).headers.raw_value(),
            match old(self).headers.modified_value() {
                None => r is Ok && final(self).headers == old(self).headers,
                Some(h) => match header_name_of(key@) {
                    Some(n) => r is Ok && (final(self).headers.modified_value() matches Some(nh)
                        && values_of(nh@, n) == Seq::<Seq<u8>>::empty()
                        && forall|k: Seq<char>| k != n ==> #[trigger] values_of(nh@, k) == values_of(h@, k)),
                    None => r == Err::<(), SgError>(SgError::FormatError)
                        && final(self).headers.modified_value() == Some(h),
                },
            },
            final(self).status_code == old(self).status_code,
            final(self).body == old(self).body,
            final(self).resp_err == old(self).resp_err,
    {
        match self.headers.get_modified_mut() {
            Some(headers) => {
                let name = match parse_header_name(key) {
                    Some(n) => n,
                    None => {
                        return Err(SgError::FormatError);
                    },
                };
                remove_named(headers, name.as_str());
            },
            None => {},
        }
        Ok(())
    }

    /// Sets each of the headers in `sets`, in order, as
    /// [`set_header_str`](Self::set_header_str) does; the first name or
    /// value that `http` does not accept is a `FormatError`.
    pub fn set_headers_each(&mut self, sets: &Vec<(String, String)>) -> (r: Result<(), SgError>)
        ensures
            final(self).headers.raw_value() == old(self).headers.raw_value(),
            sets@.len() > 0 ==> final(self).headers.modified_value() is Some,
            sets@.len() == 0 ==> final(self).headers == old(self).headers,
            r is Ok <==> sets_ok(sets@),
            r is Err ==> r == Err::<(), SgError>(SgError::FormatError),
            r is Ok ==> forall|n: Seq<char>| #[trigger] values_of(final(self).headers.current()@, n) == values_after_sets(old(self).headers.current()@, sets@, n),
            final(self).status_code == old(self).status_code,
            final(self).body == old(self).body,
            final(self).resp_err == old(self).resp_err,
    {
        headers_set_each(&mut self.headers, sets)
    }

    /// Removes each of the listed headers from the modified header map, as
    /// [`remove_header_str`](Self::remove_header_str) does: an unmodified
    /// map is left as it is; with a modified map, a text that is not a
    /// header name is a `FormatError`.
    pub fn remove_headers_each(&mut self, remove: &Vec<String>) -> (r: Result<(), SgError>)
        ensures
            final(self).headers.raw_value() == old(self).headers.raw_value(),
            match old(self).headers.modified_value() {
                None => r is Ok && final(self).headers == old(self).headers,
                Some(h) => (r is Ok <==> names_ok(remove@))
                    && (r is Err ==> r == Err::<(), SgError>(SgError::FormatError))
                    && (r is Ok ==> (final(self).headers.modified_value() matches Some(nh)
                        && forall|n: Seq<char>| #[trigger] values_of(nh@, n) == if removed_name(remove@, n) {
                            Seq::<Seq<u8>>::empty()
                        } else {
                            values_of(h@, n)
                        })),
            },
            final(self).status_code == old(self).status_code,
            final(self).body == old(self).body,
            final(self).resp_err == old(self).resp_err,
    {
        if !self.headers.is_modified() || remove.len() == 0 {
            return Ok(());
        }
        if !check_names(remove) {
            return Err(SgError::FormatError);
        }
        match self.headers.get_modified_mut() {
            Some(hs) => apply_removes(hs, remove),
            None => {},
        }
        Ok(())
    }

    /// Takes the body out, leaving an empty one.
    pub fn take_body(&mut self) -> (r: Vec<u8>)
        ensures
            r == old(self).body,
            final(self).body@.len() == 0,
            final(self).status_code == old(self).status_code,
            final(self).headers == old(self).headers,
            final(self).resp_err == old(self).resp_err,
    {
        let mut b: Vec<u8> = Vec::new();
        std::mem::swap(&mut b, &mut self.body);
        b
    }

    /// Puts `body` in place of the body and returns the one it replaces.
    pub fn replace_body(&mut self, body: Vec<u8>) -> (r: Vec<u8>)
        ensures
            r == old(self).body,
            final(self).body == body,
            final(self).status_code == old(self).status_code,
            final(self).headers == old(self).headers,
            final(self).resp_err == old(self).resp_err,
    {
        let mut b = body;
        std::mem::swap(&mut b, &mut self.body);
        b
    }

    /// Puts `body` in place of the body.
    pub fn set_body(&mut self, body: Vec<u8>)
        ensures
            final(self).body == body,
            final(self).status_code == old(self).status_code,
            final(self).headers == old(self).headers,
            final(self).resp_err == old(self).resp_err,
    {
        let _ = self.replace_body(body);
    }

    /// The body's bytes; the body stays in place.
    pub fn dump_body(&mut self) -> (r: Vec<u8>)
        ensures
            r@ == old(self).body@,
            final(self).body@ == old(self).body@,
            final(self).status_code == old(self).status_code,
            final(self).headers == old(self).headers,
            final(self).resp_err == old(self).resp_err,
    {
        let bytes = self.take_body();
        let copy = copy_bytes(&bytes);
        self.set_body(bytes);
        copy
    }
}

/// Whether every byte is visible ASCII or a tab, as `HeaderValue::to_str`
/// asks of a header value.
pub open spec fn visible_ascii(b: Seq<u8>) -> bool {
    forall|i: int| 0 <= i < b.len() ==> ((#[trigger] b[i]) >= 32 && b[i] < 127) || b[i] == 9
}

/// The text of ASCII bytes, one character per byte.
pub open spec fn ascii_text(b: Seq<u8>) -> Seq<char> {
    Seq::new(b.len(), |i: int| b[i] as char)
}

/// Whether every header value is visible ASCII.
pub open spec fn headers_visible(hs: Seq<(String, Vec<u8>)>) -> bool {
    forall|i: int| 0 <= i < hs.len() ==> visible_ascii((#[trigger] hs[i]).1@)
}

/// Whether every header name is a valid name in lower case.
pub open spec fn headers_named(hs: Seq<(String, Vec<u8>)>) -> bool {
    forall|i: int| 0 <= i < hs.len() ==> header_name_of((#[trigger] hs[i]).0@) == Some(hs[i].0@)
}

/// The header fields as name and value text.
pub open spec fn headers_as_text(hs: Seq<(String, Vec<u8>)>) -> Seq<(Seq<char>, Seq<char>)> {
    hs.map_values(|e: (String, Vec<u8>)| (e.0@, ascii_text(e.1@)))
}

/// Text fields as plain values.
pub open spec fn text_fields(fs: Seq<(String, String)>) -> Seq<(Seq<char>, Seq<char>)> {
    fs.map_values(|e: (String, String)| (e.0@, e.1@))
}

/// `HeaderValue::to_str`: the value as text when every byte is visible
/// ASCII or a tab.
pub fn visible_text(b: &Vec<u8>) -> (r: Option<String>)
    ensures
        match r {
            Some(s) => visible_ascii(b@) && s@ == ascii_text(b@),
            None => !visible_ascii(b@),
        },
{
    let mut s = String::new();
    let mut i: usize = 0;
    while i < b.len()
        invariant
            i <= b.len(),
            s@ == ascii_text(b@.take(i as int)),
            forall|j: int| 0 <= j < i ==> ((#[trigger] b@[j]) >= 32 && b@[j] < 127) || b@[j] == 9,
        decreases b.len() - i,
    {
        let c = b[i];
        if !((c >= 32 && c < 127) || c == 9) {
            return None;
        }
        string_push(&mut s, c as char);
        assert(ascii_text(b@.take(i + 1)) =~= ascii_text(b@.take(i as int)).push(c as char));
        i = i + 1;
    }
    assert(b@.take(b.len() as int) =~= b@);
    Some(s)
}

/// Two contexts that agree on everything but the request, the response and
/// the action.
pub open spec fn same_but_messages(a: SgRoutePluginContext, b: SgRoutePluginContext) -> bool {
    &&& a.wf() == b.wf()
    &&& a.exts() == b.exts()
    &&& a.chosen_backend_of() == b.chosen_backend_of()
    &&& a.chosen_rule_of() == b.chosen_rule_of()
    &&& a.kind_of() == b.kind_of()
    &&& a.request_id_of() == b.request_id_of()
    &&& a.gateway_name_of() == b.gateway_name_of()
    &&& a.ident_of() == b.ident_of()
}

/// The state shared by the filters that run on one request.
#[derive(Debug)]
pub struct SgRoutePluginContext {
    request_id: String,
    request_kind: SgPluginFilterKind,
    pub request: SgCtxRequest,
    pub response: SgCtxResponse,
    chosen_route_rule: Option<ChosenHttpRouteRuleInst>,
    chosen_backend: Option<AvailableBackendInst>,
    ext: Vec<(String, String)>,
    ident_info: Option<SGIdentInfo>,
    action: SgRouteFilterRequestAction,
    gateway_name: String,
}

impl SgRoutePluginContext {
    /// The context's invariant: no extension key occurs twice.
    pub closed spec fn wf(&self) -> bool {
        distinct_keys(self.ext@)
    }

    /// The extensions as a map.
    pub closed spec fn exts(&self) -> Map<Seq<char>, Seq<char>> {
        ext_map(self.ext@)
    }

    pub closed spec fn request_of(&self) -> SgCtxRequest {
        self.request
    }

    pub closed spec fn response_of(&self) -> SgCtxResponse {
        self.response
    }

    pub closed spec fn action_of(&self) -> SgRouteFilterRequestAction {
        self.action
    }

    pub closed spec fn chosen_backend_of(&self) -> Option<AvailableBackendInst> {
        self.chosen_backend
    }

    pub closed spec fn chosen_rule_of(&self) -> Option<ChosenHttpRouteRuleInst> {
        self.chosen_route_rule
    }

    pub closed spec fn kind_of(&self) -> SgPluginFilterKind {
        self.request_kind
    }

    pub closed spec fn request_id_of(&self) -> Seq<char> {
        self.request_id@
    }

    pub closed spec fn gateway_name_of(&self) -> Seq<char> {
        self.gateway_name@
    }

    pub closed spec fn ident_of(&self) -> Option<SGIdentInfo> {
        self.ident_info
    }

    /// The match that selected the chosen rule, if any.
    pub open spec fn rule_match_of(&self) -> Option<SgHttpRouteMatchInst> {
        match self.chosen_rule_of() {
            Some(c) => c.matched_match,
            None => None,
        }
    }

    /// The request.
    pub fn get_request(&self) -> (r: &SgCtxRequest)
        ensures
            *r == self.request_of(),
    {
        &self.request
    }

    /// The response.
    pub fn get_response(&self) -> (r: &SgCtxResponse)
        ensures
            *r == self.response_of(),
    {
        &self.response
    }

    /// Mutable access to the request; the rest of the context stays.
    pub fn request_mut(&mut self) -> (r: &mut SgCtxRequest)
        ensures
            *r == old(self).request_of(),
            final(self).request_of() == *final(r),
            final(self).response_of() == old(self).response_of(),
            same_but_messages(*final(self), *old(self)),
            final(self).action_of() == old(self).action_of(),
    {
        &mut self.request
    }

    /// Mutable access to the response; the rest of the context stays.
    pub fn response_mut(&mut self) -> (r: &mut SgCtxResponse)
        ensures
            *r == old(self).response_of(),
            final(self).response_of() == *final(r),
            final(self).request_of() == old(self).request_of(),
            same_but_messages(*final(self), *old(self)),
            final(self).action_of() == old(self).action_of(),
    {
        &mut self.response
    }

    /// The context of a plain HTTP request, before any filter ran.
    pub fn new_http(request_id: String, request: SgCtxRequest, gateway_name: String, chose_route_rule: Option<ChosenHttpRouteRuleInst>) -> (r: Self)
        ensures
            r.wf(),
            r.kind_of() == SgPluginFilterKind::Http,
            r.action_of() == SgRouteFilterRequestAction::Proceed,
            r.chosen_backend_of() is None,
            r.chosen_rule_of() == chose_route_rule,
            r.exts() == Map::<Seq<char>, Seq<char>>::empty(),
            r.request_of() == request,
            r.response_of().status_code.current() == 200,
            r.response_of().error() is None,
            r.request_id_of() == request_id@,
            r.gateway_name_of() == gateway_name@,
            r.ident_of() is None,
    {
        let r = SgRoutePluginContext {
            request_id,
            request_kind: SgPluginFilterKind::Http,
            request,
            response: SgCtxResponse::new(),
            chosen_route_rule: chose_route_rule,
            chosen_backend: None,
            ext: Vec::new(),
            ident_info: None,
            action: SgRouteFilterRequestAction::Proceed,
            gateway_name,
        };
        assert(r.exts() =~= Map::<Seq<char>, Seq<char>>::empty());
        r
    }

    /// The context of a websocket upgrade request, before any filter ran.
    pub fn new_ws(request_id: String, request: SgCtxRequest, gateway_name: String, chose_route_rule: Option<ChosenHttpRouteRuleInst>) -> (r: Self)
        ensures
            r.wf(),
            r.kind_of() == SgPluginFilterKind::Ws,
            r.action_of() == SgRouteFilterRequestAction::Proceed,
            r.chosen_backend_of() is None,
            r.chosen_rule_of() == chose_route_rule,
            r.exts() == Map::<Seq<char>, Seq<char>>::empty(),
            r.request_of() == request,
            r.response_of().status_code.current() == 200,
            r.response_of().error() is None,
            r.request_id_of() == request_id@,
            r.gateway_name_of() == gateway_name@,
            r.ident_of() is None,
    {
        let r = SgRoutePluginContext {
            request_id,
            request_kind: SgPluginFilterKind::Ws,
            request,
            response: SgCtxResponse::new(),
            chosen_route_rule: chose_route_rule,
            chosen_backend: None,
            ext: Vec::new(),
            ident_info: None,
            action: SgRouteFilterRequestAction::Proceed,
            gateway_name,
        };
        assert(r.exts() =~= Map::<Seq<char>, Seq<char>>::empty());
        r
    }

    /// Fills in the response from a backend (or a filter): status, headers
    /// and body as given, unmodified, and no error.
    pub fn resp(&mut self, status_code: u16, headers: Vec<(String, Vec<u8>)>, body: Vec<u8>)
        ensures
            final(self).response_of().status_code.raw_value() == status_code,
            final(self).response_of().status_code.modified_value() is None,
            final(self).response_of().headers.raw_value() == headers,
            final(self).response_of().headers.modified_value() is None,
            final(self).response_of().body == body,
            final(self).response_of().error() is None,
            final(self).request_of() == old(self).request_of(),
            final(self).wf() == old(self).wf(),
            final(self).exts() == old(self).exts(),
            final(self).action_of() == old(self).action_of(),
    {
        self.response.status_code.reset(status_code);
        self.response.headers.reset(headers);
        self.response.body = body;
        self.response.resp_err = None;
    }

    /// Puts an error in place of the backend response; the status becomes
    /// `502 Bad Gateway`.
    pub fn resp_from_error(&mut self, error: SgError)
        ensures
            final(self).response_of().error() == Some(error),
            final(self).response_of().status_code.raw_value() == 502,
            final(self).response_of().status_code.modified_value() is None,
            final(self).response_of().headers == old(self).response_of().headers,
            final(self).request_of() == old(self).request_of(),
            final(self).wf() == old(self).wf(),
            final(self).exts() == old(self).exts(),
            final(self).action_of() == old(self).action_of(),
    {
        self.response.resp_err = Some(error);
        self.response.status_code.reset(502);
    }

    /// Whether the response is an error.
    pub fn is_resp_error(&self) -> (r: bool)
        ensures
            r == (self.response_of().error() is Some),
    {
        self.response.is_resp_error()
    }

    /// The parts of the response to send: its status, its header fields as
    /// text and its body, which is taken out of the context. An error in
    /// place of a backend response is returned as it is; a header value
    /// that is not visible ASCII is a `BadRequest`; a header name that is
    /// not a valid lower-case name, or a status outside 100 to 999, is an
    /// `InternalError`.
    pub fn build_response(&mut self) -> (r: Result<(u16, Vec<(String, String)>, Vec<u8>), SgError>)
        ensures
            final(self).request_of() == old(self).request_of(),
            final(self).wf() == old(self).wf(),
            final(self).exts() == old(self).exts(),
            final(self).action_of() == old(self).action_of(),
            final(self).response_of().status_code == old(self).response_of().status_code,
            final(self).response_of().headers == old(self).response_of().headers,
            final(self).response_of().resp_err == old(self).response_of().resp_err,
            match old(self).response_of().error() {
                Some(e) => r == Err::<(u16, Vec<(String, String)>, Vec<u8>), SgError>(e)
                    && final(self).response_of().body == old(self).response_of().body,
                None => {
                    let hs = old(self).response_of().headers.current()@;
                    let status = old(self).response_of().status_code.current();
                    if !headers_visible(hs) {
                        r == Err::<(u16, Vec<(String, String)>, Vec<u8>), SgError>(SgError::BadRequest)
                            && final(self).response_of().body == old(self).response_of().body
                    } else {
                        &&& final(self).response_of().body@.len() == 0
                        &&& if !headers_named(hs) || !(100 <= status <= 999) {
                            r == Err::<(u16, Vec<(String, String)>, Vec<u8>), SgError>(SgError::InternalError)
                        } else {
                            r matches Ok((s, fields, b)) && s == status
                                && text_fields(fields@) == headers_as_text(hs)
                                && b == old(self).response_of().body
                        }
                    }
                },
            },
    {
        if let Some(e) = self.response.resp_err {
            return Err(e);
        }
        let hs = self.response.headers.get();
        let mut fields: Vec<(String, String)> = Vec::new();
        let mut named = true;
        let mut i: usize = 0;
        while i < hs.len()
            invariant
                i <= hs@.len(),
                *self == *old(self),
                self.response.resp_err is None,
                *hs == self.response.headers.current(),
                fields@.len() == i,
                forall|j: int| 0 <= j < i ==> visible_ascii((#[trigger] hs@[j]).1@),
                forall|j: int| 0 <= j < i ==> (#[trigger] fields@[j]).0@ == hs@[j].0@ && fields@[j].1@ == ascii_text(hs@[j].1@),
                named == (forall|j: int| 0 <= j < i ==> header_name_of((#[trigger] hs@[j]).0@) == Some(hs@[j].0@)),
            decreases hs.len() - i,
        {
            let v = match visible_text(&hs[i].1) {
                Some(v) => v,
                None => {
                    assert(!headers_visible(hs@)) by {
                        assert(!visible_ascii(hs@[i as int].1@));
                    }
                    return Err(SgError::BadRequest);
                },
            };
            match parse_header_name(hs[i].0.as_str()) {
                Some(n) => {
                    let nc = chars_of(n.as_str());
                    let kc = chars_of(hs[i].0.as_str());
                    if !seq_eq(nc.as_slice(), kc.as_slice()) {
                        named = false;
                    }
                },
                None => {
                    named = false;
                },
            }
            fields.push((hs[i].0.clone(), v));
            i = i + 1;
        }
        proof {
            assert(text_fields(fields@) =~= headers_as_text(hs@));
        }
        let status = *self.response.status_code.get();
        let body = self.response.take_body();
        if !named || status < 100 || status > 999 {
            return Err(SgError::InternalError);
        }
        Ok((status, fields, body))
    }

    pub fn get_request_id(&self) -> (r: &str)
        ensures
            r@ == self.request_id_of(),
    {
        self.request_id.as_str()
    }

    pub fn get_request_kind(&self) -> (r: SgPluginFilterKind)
        ensures
            r == self.kind_of(),
    {
        self.request_kind
    }

    /// The extension stored under `key`.
    pub fn get_ext(&self, key: &str) -> (r: Option<String>)
        requires
            self.wf(),
        ensures
            match r {
                Some(v) => self.exts().contains_key(key@) && self.exts()[key@] == v@,
                None => !self.exts().contains_key(key@),
            },
    {
        match ext_find(&self.ext, key) {
            Some(i) => Some(self.ext[i].1.clone()),
            None => None,
        }
    }

    /// Stores `value` under `key`, replacing what was stored there.
    pub fn set_ext(&mut self, key: &str, value: &str)
        requires
            old(self).wf(),
        ensures
            final(self).wf(),
            final(self).exts() == old(self).exts().insert(key@, value@),
            final(self).action_of() == old(self).action_of(),
            final(self).chosen_backend_of() == old(self).chosen_backend_of(),
    {
        let ghost old_ext = self.ext@;
        match ext_find(&self.ext, key) {
            Some(i) => {
                let k = self.ext[i].0.clone();
                let v = value.to_string();
                self.ext.set(i, (k, v));
                proof {
                    assert(distinct_keys(self.ext@));
                    assert forall|k2: Seq<char>| #[trigger] ext_map(self.ext@).contains_key(k2) <==> ext_map(old_ext).insert(key@, value@).contains_key(k2) by {
                        if k2 != key@ {
                            if key_index(old_ext, k2) is Some {
                                let w = key_index(old_ext, k2)->0;
                                assert(self.ext@[w].0@ == k2);
                            }
                            if key_index(self.ext@, k2) is Some {
                                let w = key_index(self.ext@, k2)->0;
                                assert(old_ext[w].0@ == k2);
                            }
                        } else {
                            assert(self.ext@[i as int].0@ == key@);
                        }
                    }
                    assert forall|k2: Seq<char>| #[trigger] ext_map(self.ext@).contains_key(k2) implies ext_map(self.ext@)[k2] == ext_map(old_ext).insert(key@, value@)[k2] by {
                        if k2 == key@ {
                            assert(self.ext@[i as int].0@ == key@);
                        } else {
                            let w = key_index(self.ext@, k2)->0;
                            assert(old_ext[w].0@ == k2);
                        }
                    }
                    assert(ext_map(self.ext@) =~= ext_map(old_ext).insert(key@, value@));
                }
            },
            None => {
                let k = key.to_string();
                let v = value.to_string();
                self.ext.push((k, v));
                proof {
                    let n = old_ext.len() as int;
                    assert(self.ext@[n].0@ == key@);
                    assert(distinct_keys(self.ext@));
                    assert forall|k2: Seq<char>| #[trigger] ext_map(self.ext@).contains_key(k2) <==> ext_map(old_ext).insert(key@, value@).contains_key(k2) by {
                        if k2 != key@ {
                            if key_index(old_ext, k2) is Some {
                                let w = key_index(old_ext, k2)->0;
                                assert(self.ext@[w].0@ == k2);
                            }
                            if key_index(self.ext@, k2) is Some {
                                let w = key_index(self.ext@, k2)->0;
                                assert(old_ext[w].0@ == k2);
                            }
                        }
                    }
                    assert forall|k2: Seq<char>| #[trigger] ext_map(self.ext@).contains_key(k2) implies ext_map(self.ext@)[k2] == ext_map(old_ext).insert(key@, value@)[k2] by {
                        if k2 == key@ {
                            assert(self.ext@[n].0@ == key@);
                        } else {
                            let w = key_index(self.ext@, k2)->0;
                            assert(old_ext[w].0@ == k2);
                            assert(self.ext@[w] == old_ext[w]);
                        }
                    }
                    assert(ext_map(self.ext@) =~= ext_map(old_ext).insert(key@, value@));
                }
            },
        }
    }

    /// Removes the extension stored under `key`.
    pub fn remove_ext(&mut self, key: &str)
        requires
            old(self).wf(),
        ensures
            final(self).wf(),
            final(self).exts() == old(self).exts().remove(key@),
            final(self).action_of() == old(self).action_of(),
            final(self).chosen_backend_of() == old(self).chosen_backend_of(),
    {
        let ghost old_ext = self.ext@;
        match ext_find(&self.ext, key) {
            Some(i) => {
                self.ext.remove(i);
                proof {
                    assert forall|a: int, b: int| 0 <= a < self.ext@.len() && 0 <= b < self.ext@.len() && a != b implies #[trigger] self.ext@[a].0@ != #[trigger] self.ext@[b].0@ by {
                        let a2 = if a < i { a } else { a + 1 };
                        let b2 = if b < i { b } else { b + 1 };
                        assert(self.ext@[a] == old_ext[a2]);
                        assert(self.ext@[b] == old_ext[b2]);
                    }
                    assert forall|k2: Seq<char>| #[trigger] ext_map(self.ext@).contains_key(k2) <==> ext_map(old_ext).remove(key@).contains_key(k2) by {
                        if key_index(old_ext, k2) is Some && k2 != key@ {
                            let w = key_index(old_ext, k2)->0;
                            let w2 = if w < i { w } else { w - 1 };
                            assert(w != i);
                            assert(self.ext@[w2] == old_ext[w]);
                        }
                        if key_index(self.ext@, k2) is Some {
                            let w = key_index(self.ext@, k2)->0;
                            let w2 = if w < i { w } else { w + 1 };
                            assert(self.ext@[w] == old_ext[w2]);
                            assert(w2 != i);
                        }
                    }
                    assert forall|k2: Seq<char>| #[trigger] ext_map(self.ext@).contains_key(k2) implies ext_map(self.ext@)[k2] == ext_map(old_ext).remove(key@)[k2] by {
                        let w = key_index(self.ext@, k2)->0;
                        let w2 = if w < i { w } else { w + 1 };
                        assert(self.ext@[w] == old_ext[w2]);
                    }
                    assert(ext_map(self.ext@) =~= ext_map(old_ext).remove(key@));
                }
            },
            None => {
                assert(ext_map(self.ext@) =~= ext_map(old_ext).remove(key@));
            },
        }
    }

    /// The action the filters asked for.
    pub fn get_action(&self) -> (r: SgRouteFilterRequestAction)
        ensures
            r == self.action_of(),
    {
        self.action
    }

    /// Sets the action; redirecting or answering directly drops the chosen
    /// backend.
    pub fn set_action(&mut self, action: SgRouteFilterRequestAction)
        ensures
            final(self).action_of() == action,
            final(self).chosen_backend_of() == (if action == SgRouteFilterRequestAction::Proceed {
                old(self).chosen_backend_of()
            } else {
                None
            }),
            final(self).chosen_rule_of() == old(self).chosen_rule_of(),
            final(self).wf() == old(self).wf(),
            final(self).exts() == old(self).exts(),
            final(self).request_of() == old(self).request_of(),
            final(self).response_of() == old(self).response_of(),
            final(self).kind_of() == old(self).kind_of(),
            final(self).request_id_of() == old(self).request_id_of(),
            final(self).gateway_name_of() == old(self).gateway_name_of(),
            final(self).ident_of() == old(self).ident_of(),
    {
        if action == SgRouteFilterRequestAction::Redirect || action == SgRouteFilterRequestAction::Response {
            self.chosen_backend = None;
        }
        self.action = action;
    }

    /// Records the backend chosen for the request.
    pub fn set_chose_backend(&mut self, chose_backend: &SgBackendInst)
        ensures
            final(self).chosen_backend_of() matches Some(b) && same_backend(b, *chose_backend),
            final(self).action_of() == old(self).action_of(),
            final(self).chosen_rule_of() == old(self).chosen_rule_of(),
            final(self).wf() == old(self).wf(),
            final(self).exts() == old(self).exts(),
    {
        self.chosen_backend = Some(AvailableBackendInst::clone_from(chose_backend));
    }

    /// The name or host of the chosen backend.
    pub fn get_chose_backend_name(&self) -> (r: Option<String>)
        ensures
            match self.chosen_backend_of() {
                Some(b) => r matches Some(n) && n@ == b.name_or_host@,
                None => r is None,
            },
    {
        match &self.chosen_backend {
            Some(b) => Some(b.name_or_host.clone()),
            None => None,
        }
    }

    /// The request URI in effect.
    pub fn get_req_uri(&self) -> (r: &String)
        ensures
            *r == self.request_of().uri.current(),
    {
        self.request.uri.get()
    }

    /// The backends the chosen rule offers (none without a chosen rule).
    pub closed spec fn available_backends_of(&self) -> Seq<AvailableBackendInst> {
        match self.chosen_route_rule {
            Some(c) => c.available_backends@,
            None => Seq::empty(),
        }
    }

    /// The backends the chosen rule offers.
    pub fn get_available_backend(&self) -> (r: &[AvailableBackendInst])
        ensures
            r@ == self.available_backends_of(),
    {
        match &self.chosen_route_rule {
            Some(c) => c.available_backends.as_slice(),
            None => &[],
        }
    }

    /// The request timeout: the chosen backend's, else the chosen rule's.
    pub fn get_timeout_ms(&self) -> (r: Option<u64>)
        ensures
            r == timeout_of(self.chosen_backend_of(), self.chosen_rule_of()),
    {
        match &self.chosen_backend {
            Some(b) => match b.timeout_ms {
                Some(t) => {
                    return Some(t);
                },
                None => {},
            },
            None => {},
        }
        match &self.chosen_route_rule {
            Some(r) => r.timeout_ms,
            None => None,
        }
    }

    /// The match that selected the chosen rule, if a match did.
    pub fn get_rule_matched(&self) -> (r: Option<&SgHttpRouteMatchInst>)
        ensures
            match self.chosen_rule_of() {
                Some(c) => match c.matched_match {
                    Some(m) => r == Some(&m),
                    None => r is None,
                },
                None => r is None,
            },
    {
        match &self.chosen_route_rule {
            Some(c) => c.matched_match.as_ref(),
            None => None,
        }
    }

    pub fn get_gateway_name(&self) -> (r: String)
        ensures
            r@ == self.gateway_name_of(),
    {
        self.gateway_name.clone()
    }

    /// The authenticated user, if a filter recorded one.
    pub fn get_cert_info(&self) -> (r: Option<&SGIdentInfo>)
        ensures
            match self.ident_of() {
                Some(i) => r == Some(&i),
                None => r is None,
            },
    {
        self.ident_info.as_ref()
    }

    /// Records the authenticated user.
    pub fn set_cert_info(&mut self, cert_info: SGIdentInfo)
        ensures
            final(self).ident_of() == Some(cert_info),
            final(self).action_of() == old(self).action_of(),
            final(self).wf() == old(self).wf(),
            final(self).exts() == old(self).exts(),
    {
        self.ident_info = Some(cert_info);
    }
}

/// The timeout of a request: the chosen backend's if it has one, else the
/// chosen rule's.
pub open spec fn timeout_of(backend: Option<AvailableBackendInst>, rule: Option<ChosenHttpRouteRuleInst>) -> Option<u64> {
    match backend {
        Some(b) if b.timeout_ms is Some => b.timeout_ms,
        _ => match rule {
            Some(r) => r.timeout_ms,
            None => None,
        },
    }
}

/// A value stored as an extension is read back by `get_ext`, a removed one
/// is gone, and storing or removing one key leaves the other keys as they
/// were (`after_set` and `after_remove` are `before` after `set_ext(k, v)`
/// and `remove_ext(k)`).
pub proof fn lemma_ext_read_after_write(
    before: SgRoutePluginContext,
    after_set: SgRoutePluginContext,
    after_remove: SgRoutePluginContext,
    k: Seq<char>,
    v: Seq<char>,
    other: Seq<char>,
)
    requires
        after_set.exts() == before.exts().insert(k, v),
        after_remove.exts() == before.exts().remove(k),
        other != k,
    ensures
        after_set.exts().contains_key(k) && after_set.exts()[k] == v,
        !after_remove.exts().contains_key(k),
        after_set.exts().contains_key(other) == before.exts().contains_key(other),
        before.exts().contains_key(other) ==> after_set.exts()[other] == before.exts()[other],
        after_remove.exts().contains_key(other) == before.exts().contains_key(other),
        before.exts().contains_key(other) ==> after_remove.exts()[other] == before.exts()[other],
{
}

/// An error put in place of a backend response is what the response gives:
/// after `resp_from_error(e)` the response is an error, its status is
/// `502 Bad Gateway`, and building it gives `e` back (see
/// `build_response`); after `resp(status, headers, body)` it is no error any
/// more, and its status, headers and body are those given.
pub proof fn lemma_error_then_answer(
    errored: SgRoutePluginContext,
    answered: SgRoutePluginContext,
    e: SgError,
    status: u16,
    headers: Vec<(String, Vec<u8>)>,
    body: Vec<u8>,
)
    requires
        errored.response_of().error() == Some(e),
        errored.response_of().status_code.raw_value() == 502,
        errored.response_of().status_code.modified_value() is None,
        answered.response_of().status_code.raw_value() == status,
        answered.response_of().status_code.modified_value() is None,
        answered.response_of().headers.raw_value() == headers,
        answered.response_of().headers.modified_value() is None,
        answered.response_of().body == body,
        answered.response_of().error() is None,
    ensures
        errored.response_of().error() is Some,
        errored.response_of().status_code.current() == 502,
        match errored.response_of().error() {
            Some(x) => x == e,
            None => false,
        },
        answered.response_of().error() is None,
        answered.response_of().status_code.current() == status,
        answered.response_of().headers.current() == headers,
        answered.response_of().body == body,
{
}

/// The namespace of a backend is part of its host whatever the scheme: the
/// base URL of `name` in namespace `n` is the base URL of the host
/// `name.n` without a namespace, and every base URL starts with the
/// scheme, `://`, and the host.
pub proof fn lemma_base_url_host(name: Seq<char>, namespace: Option<Seq<char>>, port: u16, protocol: Option<SgProtocol>)
    ensures
        namespace matches Some(n) ==> base_url_spec(name, namespace, port, protocol)
            == base_url_spec(name + seq!['.'] + n, None, port, protocol),
        ({
            let host = match namespace {
                Some(n) => name + seq!['.'] + n,
                None => name,
            };
            let head = protocol_name(backend_scheme(protocol)) + seq![':', '/', '/'] + host;
            &&& head.len() <= base_url_spec(name, namespace, port, protocol).len()
            &&& base_url_spec(name, namespace, port, protocol).take(head.len() as int) == head
        }),
{
    let host = match namespace {
        Some(n) => name + seq!['.'] + n,
        None => name,
    };
    let head = protocol_name(backend_scheme(protocol)) + seq![':', '/', '/'] + host;
    let url = base_url_spec(name, namespace, port, protocol);
    let tail = url.skip(head.len() as int);
    assert(url =~= head + tail);
    assert(url.take(head.len() as int) =~= head);
}

/// The port of a backend's base URL: it is left out exactly when it is 0
/// or the default of the scheme (80 for HTTP, 443 for HTTPS), and written
/// as `:` and its decimal digits otherwise, after the host.
pub proof fn lemma_base_url_port(name: Seq<char>, namespace: Option<Seq<char>>, port: u16, protocol: Option<SgProtocol>)
    ensures
        ({
            let scheme = match protocol {
                Some(p) => p,
                None => SgProtocol::Http,
            };
            let host = match namespace {
                Some(n) => name + seq!['.'] + n,
                None => name,
            };
            let head = protocol_name(scheme) + seq![':', '/', '/'] + host;
            let left_out = (scheme == SgProtocol::Http && (port == 0 || port == 80))
                || (scheme == SgProtocol::Https && (port == 0 || port == 443));
            &&& left_out ==> base_url_spec(name, namespace, port, protocol) == head
            &&& !left_out ==> base_url_spec(name, namespace, port, protocol) == head + seq![':'] + decimal_spec(port as nat)
        }),
{
    let scheme = match protocol {
        Some(p) => p,
        None => SgProtocol::Http,
    };
    let host = match namespace {
        Some(n) => name + seq!['.'] + n,
        None => name,
    };
    let head = protocol_name(scheme) + seq![':', '/', '/'] + host;
    assert(head + Seq::<char>::empty() =~= head);
    assert(head + (seq![':'] + decimal_spec(port as nat)) =~= head + seq![':'] + decimal_spec(port as nat));
}

} // verus!
