//! Matching of requests against routes, rules and listeners.
use vstd::prelude::*;

use crate::config::gateway_dto::SgListener;
use crate::random::{weight_sum, weighted_index};
use crate::instance::{
    SgBackendInst,
    SgHttpRouteInst, SgHttpRouteRuleInst,
    SgHttpHeaderMatchInst, SgHttpHeaderMatchType, SgHttpPathMatchType, SgHttpQueryMatchInst,
    SgHttpQueryMatchType, SgHttpRouteMatchInst, SgRequestParts,
};
use crate::pattern::regex_is_match;
use crate::text::{
    ascii_lower, ascii_lower_seq, chars_of, eq_ignore_ascii_case_spec, first_where, seq_eq,
    split_once_spec, split_spec, starts_with_spec, string_push, to_ascii_lower,
    eq_ignore_ascii_case, split, split_once, starts_with, string_of, ends_with, ends_with_spec,
    slice_chars,
};
use crate::urls::{url_decode, url_decode_spec};

pub mod filter_chain;
pub mod process;
pub mod route_init;

verus! {

/* ------------------------------------------------------------------------
   Header lookup
   ------------------------------------------------------------------------ */

/// A character that may stand in a header name (an HTTP token character).
pub open spec fn is_header_name_char(c: char) -> bool {
    ||| 'a' <= c && c <= 'z'
    ||| 'A' <= c && c <= 'Z'
    ||| '0' <= c && c <= '9'
    ||| c == '!' || c == '#' || c == '$' || c == '%' || c == '&' || c == '\''
    ||| c == '*' || c == '+' || c == '-' || c == '.' || c == '^' || c == '_'
    ||| c == '`' || c == '|' || c == '~'
}

/// A non-empty text of HTTP token characters (what `http` accepts as a
/// method).
pub open spec fn valid_header_name(name: Seq<char>) -> bool {
    name.len() > 0 && forall|i: int| 0 <= i < name.len() ==> is_header_name_char(#[trigger] name[i])
}

/// A name that a header map can be asked for: token characters, at most
/// 65535 of them.
pub open spec fn header_name_ok(name: Seq<char>) -> bool {
    valid_header_name(name) && name.len() <= 65535
}

/// The predicate "header field `i` is named `key`".
pub open spec fn header_named(headers: Seq<(String, Vec<u8>)>, key: Seq<char>) -> spec_fn(int) -> bool {
    |i: int| headers[i].0@ == key
}

/// The value of the first header field named `name`, compared without
/// regard to ASCII case; nothing when `name` is not a header name.
pub open spec fn header_lookup(headers: Seq<(String, Vec<u8>)>, name: Seq<char>) -> Option<Seq<u8>> {
    if header_name_ok(name) {
        match first_where(0, headers.len() as int, header_named(headers, ascii_lower_seq(name))) {
            Some(i) => Some(headers[i].1@),
            None => None,
        }
    } else {
        None
    }
}

/// A byte that a header value may hold and still be read as text.
pub open spec fn is_visible_ascii(b: u8) -> bool {
    (32 <= b && b < 127) || b == 9
}

/// A header value read as text, if all its bytes are visible ASCII.
pub open spec fn header_value_text(v: Seq<u8>) -> Option<Seq<char>> {
    if forall|i: int| 0 <= i < v.len() ==> is_visible_ascii(#[trigger] v[i]) {
        Some(Seq::new(v.len(), |i: int| v[i] as char))
    } else {
        None
    }
}

/* ------------------------------------------------------------------------
   Query lookup
   ------------------------------------------------------------------------ */

/// The predicate "query item `k` has the key `name`".
pub open spec fn query_key_at(items: Seq<Seq<char>>, name: Seq<char>) -> spec_fn(int) -> bool {
    |k: int|
        match split_once_spec(items[k], '=') {
            Some(kv) => kv.0 == name,
            None => false,
        }
}

/// The value of the first `name=value` item of a decoded query.
pub open spec fn query_lookup(q: Seq<char>, name: Seq<char>) -> Option<Seq<char>> {
    let items = split_spec(q, '&');
    match first_where(0, items.len() as int, query_key_at(items, name)) {
        Some(k) => match split_once_spec(items[k], '=') {
            Some(kv) => Some(kv.1),
            None => None,
        },
        None => None,
    }
}

/* ------------------------------------------------------------------------
   Conditions of one match
   ------------------------------------------------------------------------ */

/// The request method is one of the listed methods (ignoring ASCII case).
pub open spec fn method_ok(m: SgHttpRouteMatchInst, req: SgRequestParts) -> bool {
    match m.method {
        None => true,
        Some(ms) => exists|i: int| 0 <= i < ms@.len() && eq_ignore_ascii_case_spec(#[trigger] ms@[i]@, req.method@),
    }
}

/// The request path satisfies the path condition.
pub open spec fn path_ok(m: SgHttpRouteMatchInst, req: SgRequestParts) -> bool {
    match m.path {
        None => true,
        Some(p) => match p.kind {
            SgHttpPathMatchType::Exact => req.path@ == p.value@,
            SgHttpPathMatchType::Prefix => starts_with_spec(req.path@, p.value@),
            SgHttpPathMatchType::Regular => match p.regular {
                Some(r) => regex_is_match(r@, req.path@),
                None => false,
            },
        },
    }
}

/// A `Regular` path condition without its compiled regex would have to be
/// evaluated: the path check cannot proceed.
pub open spec fn path_safe(m: SgHttpRouteMatchInst) -> bool {
    match m.path {
        Some(p) => p.kind == SgHttpPathMatchType::Regular ==> p.regular is Some,
        None => true,
    }
}

/// The header condition `h` holds for the request.
pub open spec fn header_cond_ok(h: SgHttpHeaderMatchInst, req: SgRequestParts) -> bool {
    match header_lookup(req.headers@, h.name@) {
        None => false,
        Some(v) => v.len() > 0 && match header_value_text(v) {
            None => false,
            Some(s) => match h.kind {
                SgHttpHeaderMatchType::Exact => s == h.value@,
                SgHttpHeaderMatchType::Regular => match h.regular {
                    Some(r) => regex_is_match(r@, s),
                    None => false,
                },
            },
        },
    }
}

/// Evaluating `h` would need a compiled regex that is missing.
pub open spec fn header_unsafe(h: SgHttpHeaderMatchInst, req: SgRequestParts) -> bool {
    &&& header_lookup(req.headers@, h.name@) matches Some(v)
    &&& v.len() > 0
    &&& header_value_text(v) is Some
    &&& h.kind == SgHttpHeaderMatchType::Regular
    &&& h.regular is None
}

/// The predicate "header condition `i` fails".
pub open spec fn header_fails_at(hs: Seq<SgHttpHeaderMatchInst>, req: SgRequestParts) -> spec_fn(int) -> bool {
    |i: int| !header_cond_ok(hs[i], req)
}

/// Every header condition holds.
pub open spec fn headers_ok(m: SgHttpRouteMatchInst, req: SgRequestParts) -> bool {
    match m.header {
        None => true,
        Some(hs) => forall|i: int| 0 <= i < hs.len() ==> header_cond_ok(#[trigger] hs@[i], req),
    }
}

/// The header conditions are checked in order until one fails; none of the
/// checked ones needs a missing regex.
pub open spec fn headers_safe(m: SgHttpRouteMatchInst, req: SgRequestParts) -> bool {
    match m.header {
        None => true,
        Some(hs) => match first_where(0, hs.len() as int, header_fails_at(hs@, req)) {
            Some(i) => !header_unsafe(hs@[i], req),
            None => true,
        },
    }
}

/// The query condition `qc` holds for the decoded query `d`; a parameter
/// that is absent fails the condition.
pub open spec fn query_cond_ok(qc: SgHttpQueryMatchInst, d: Seq<char>) -> bool {
    match query_lookup(d, qc.name@) {
        None => false,
        Some(v) => match qc.kind {
            SgHttpQueryMatchType::Exact => v == qc.value@,
            SgHttpQueryMatchType::Regular => match qc.regular {
                Some(r) => regex_is_match(r@, v),
                None => false,
            },
        },
    }
}

/// Evaluating `qc` would need a compiled regex that is missing.
pub open spec fn query_unsafe(qc: SgHttpQueryMatchInst, d: Seq<char>) -> bool {
    query_lookup(d, qc.name@) is Some && qc.kind == SgHttpQueryMatchType::Regular && qc.regular is None
}

/// The predicate "query condition `i` fails".
pub open spec fn query_fails_at(qs: Seq<SgHttpQueryMatchInst>, d: Seq<char>) -> spec_fn(int) -> bool {
    |i: int| !query_cond_ok(qs[i], d)
}

/// Every query condition holds for the decoded request query.
pub open spec fn queries_ok(m: SgHttpRouteMatchInst, req: SgRequestParts) -> bool {
    match m.query {
        None => true,
        Some(qs) => qs.len() == 0 || match req.query {
            None => false,
            Some(q) => match url_decode_spec(q@) {
                Some(d) => forall|i: int| 0 <= i < qs.len() ==> query_cond_ok(#[trigger] qs@[i], d),
                None => false,
            },
        },
    }
}

/// The query conditions can be evaluated: the query decodes, and no checked
/// condition needs a missing regex.
pub open spec fn queries_safe(m: SgHttpRouteMatchInst, req: SgRequestParts) -> bool {
    match m.query {
        None => true,
        Some(qs) => qs.len() == 0 || match req.query {
            None => true,
            Some(q) => match url_decode_spec(q@) {
                Some(d) => match first_where(0, qs.len() as int, query_fails_at(qs@, d)) {
                    Some(i) => !query_unsafe(qs@[i], d),
                    None => true,
                },
                None => false,
            },
        },
    }
}

/// All conditions of the match hold.
pub open spec fn match_passes(m: SgHttpRouteMatchInst, req: SgRequestParts) -> bool {
    method_ok(m, req) && path_ok(m, req) && headers_ok(m, req) && queries_ok(m, req)
}

/// Checking the match, condition after condition until one fails, never
/// needs a missing regex nor an undecodable query.
pub open spec fn match_safe(m: SgHttpRouteMatchInst, req: SgRequestParts) -> bool {
    !method_ok(m, req) || (path_safe(m) && (!path_ok(m, req) || (headers_safe(m, req) && (
    !headers_ok(m, req) || queries_safe(m, req)))))
}

/// The predicate "match `i` passes".
pub open spec fn passes_at(ms: Seq<SgHttpRouteMatchInst>, req: SgRequestParts) -> spec_fn(int) -> bool {
    |i: int| match_passes(ms[i], req)
}

/// The predicate "match `i` passes or cannot be checked".
pub open spec fn stops_at(ms: Seq<SgHttpRouteMatchInst>, req: SgRequestParts) -> spec_fn(int) -> bool {
    |i: int| match_passes(ms[i], req) || !match_safe(ms[i], req)
}

/// The outcome of matching a rule: a rule without matches matches every
/// request; otherwise the first passing match is reported.
pub open spec fn rule_match_result(matches: Option<Vec<SgHttpRouteMatchInst>>, req: SgRequestParts) -> (bool, Option<int>) {
    match matches {
        None => (true, None),
        Some(ms) => match first_where(0, ms.len() as int, passes_at(ms@, req)) {
            Some(i) => (true, Some(i)),
            None => (false, None),
        },
    }
}

/// The matches checked before the first passing one can all be checked.
pub open spec fn rule_match_safe(matches: Option<Vec<SgHttpRouteMatchInst>>, req: SgRequestParts) -> bool {
    match matches {
        None => true,
        Some(ms) => match first_where(0, ms.len() as int, stops_at(ms@, req)) {
            Some(i) => match_safe(ms@[i], req),
            None => true,
        },
    }
}

/* ------------------------------------------------------------------------
   Executable checks
   ------------------------------------------------------------------------ */

/// The value of the first header named `name` (ignoring ASCII case).
pub fn header_get<'a>(headers: &'a Vec<(String, Vec<u8>)>, name: &str) -> (r: Option<&'a Vec<u8>>)
    ensures
        match r {
            Some(v) => header_lookup(headers@, name@) == Some(v@),
            None => header_lookup(headers@, name@) is None,
        },
{
    let n = chars_of(name);
    if n.len() == 0 || n.len() > 65535 {
        return None;
    }
    let mut lower: Vec<char> = Vec::new();
    let mut i: usize = 0;
    while i < n.len()
        invariant
            i <= n.len(),
            n@ == name@,
            lower@ == ascii_lower_seq(n@).take(i as int),
            forall|j: int| 0 <= j < i ==> is_header_name_char(#[trigger] n@[j]),
        decreases n.len() - i,
    {
        if !is_header_name_char_exec(n[i]) {
            return None;
        }
        lower.push(to_ascii_lower(n[i]));
        assert(ascii_lower_seq(n@).take(i + 1) =~= ascii_lower_seq(n@).take(i as int).push(ascii_lower(n@[i as int])));
        i = i + 1;
    }
    assert(lower@ =~= ascii_lower_seq(n@));
    assert(header_name_ok(name@));
    let ghost p = header_named(headers@, ascii_lower_seq(name@));
    let mut k: usize = 0;
    while k < headers.len()
        invariant
            k <= headers.len(),
            lower@ == ascii_lower_seq(name@),
            header_name_ok(name@),
            p == header_named(headers@, ascii_lower_seq(name@)),
            first_where(0, headers@.len() as int, p) == first_where(k as int, headers@.len() as int, p),
        decreases headers.len() - k,
    {
        let hn = chars_of(headers[k].0.as_str());
        if seq_eq(hn.as_slice(), lower.as_slice()) {
            assert(p(k as int));
            assert(first_where(k as int, headers@.len() as int, p) == Some(k as int));
            return Some(&headers[k].1);
        }
        k = k + 1;
    }
    None
}

fn is_header_name_char_exec(c: char) -> (r: bool)
    ensures
        r == is_header_name_char(c),
{
    ('a' <= c && c <= 'z') || ('A' <= c && c <= 'Z') || ('0' <= c && c <= '9') || c == '!' || c
        == '#' || c == '$' || c == '%' || c == '&' || c == '\'' || c == '*' || c == '+' || c == '-'
        || c == '.' || c == '^' || c == '_' || c == '`' || c == '|' || c == '~'
}

/// A header value as text, if all its bytes are visible ASCII.
pub fn header_text(v: &Vec<u8>) -> (r: Option<String>)
    ensures
        match r {
            Some(s) => header_value_text(v@) == Some(s@),
            None => header_value_text(v@) is None,
        },
{
    let mut s = String::new();
    let mut i: usize = 0;
    while i < v.len()
        invariant
            i <= v.len(),
            s@ == Seq::new(i as nat, |j: int| v@[j] as char),
            forall|j: int| 0 <= j < i ==> is_visible_ascii(#[trigger] v@[j]),
        decreases v.len() - i,
    {
        let b = v[i];
        if !((32 <= b && b < 127) || b == 9) {
            assert(!is_visible_ascii(v@[i as int]));
            return None;
        }
        string_push(&mut s, b as char);
        assert(s@ =~= Seq::new((i + 1) as nat, |j: int| v@[j] as char));
        i = i + 1;
    }
    assert(s@ =~= Seq::new(v@.len(), |j: int| v@[j] as char));
    Some(s)
}

/// The listed methods contain the request method, ignoring ASCII case.
fn method_matches(m: &SgHttpRouteMatchInst, req: &SgRequestParts) -> (r: bool)
    ensures
        r == method_ok(*m, *req),
{
    match &m.method {
        None => true,
        Some(ms) => {
            let rm = chars_of(req.method.as_str());
            let mut i: usize = 0;
            while i < ms.len()
                invariant
                    i <= ms.len(),
                    rm@ == req.method@,
                    m.method == Some(*ms),
                    forall|j: int| 0 <= j < i ==> !eq_ignore_ascii_case_spec(#[trigger] ms@[j]@, req.method@),
                decreases ms.len() - i,
            {
                let c = chars_of(ms[i].as_str());
                if eq_ignore_ascii_case(c.as_slice(), rm.as_slice()) {
                    assert(eq_ignore_ascii_case_spec(ms@[i as int]@, req.method@));
                    assert(m.method == Some(*ms));
                    let ghost mm = m.method->0;
                    assert(mm@[i as int]@ == ms@[i as int]@);
                    assert(eq_ignore_ascii_case_spec(mm@[i as int]@, req.method@));
                    return true;
                }
                i = i + 1;
            }
            false
        },
    }
}

/// The path condition holds.
fn path_matches(m: &SgHttpRouteMatchInst, req: &SgRequestParts) -> (r: bool)
    requires
        path_safe(*m),
    ensures
        r == path_ok(*m, *req),
{
    match &m.path {
        None => true,
        Some(p) => match p.kind {
            SgHttpPathMatchType::Exact => {
                let a = chars_of(req.path.as_str());
                let b = chars_of(p.value.as_str());
                seq_eq(a.as_slice(), b.as_slice())
            },
            SgHttpPathMatchType::Prefix => {
                let a = chars_of(req.path.as_str());
                let b = chars_of(p.value.as_str());
                starts_with(a.as_slice(), b.as_slice())
            },
            SgHttpPathMatchType::Regular => match &p.regular {
                Some(re) => re.is_match(req.path.as_str()),
                None => false,
            },
        },
    }
}

/// One header condition holds.
fn header_matches(h: &SgHttpHeaderMatchInst, req: &SgRequestParts) -> (r: bool)
    requires
        !header_unsafe(*h, *req),
    ensures
        r == header_cond_ok(*h, *req),
{
    match header_get(&req.headers, h.name.as_str()) {
        None => false,
        Some(v) => {
            if v.len() == 0 {
                return false;
            }
            match header_text(v) {
                None => false,
                Some(text) => match h.kind {
                    SgHttpHeaderMatchType::Exact => text == h.value,
                    SgHttpHeaderMatchType::Regular => match &h.regular {
                        Some(re) => re.is_match(text.as_str()),
                        None => false,
                    },
                },
            }
        },
    }
}

/// All header conditions hold, checked in order.
fn headers_match(m: &SgHttpRouteMatchInst, req: &SgRequestParts) -> (r: bool)
    requires
        headers_safe(*m, *req),
    ensures
        r == headers_ok(*m, *req),
{
    match &m.header {
        None => true,
        Some(hs) => {
            let ghost p = header_fails_at(hs@, *req);
            let mut i: usize = 0;
            while i < hs.len()
                invariant
                    i <= hs.len(),
                    p == header_fails_at(hs@, *req),
                    m.header == Some(*hs),
                    headers_safe(*m, *req),
                    first_where(0, hs@.len() as int, p) == first_where(i as int, hs@.len() as int, p),
                    forall|j: int| 0 <= j < i ==> header_cond_ok(#[trigger] hs@[j], *req),
                decreases hs.len() - i,
            {
                if !header_matches(&hs[i], req) {
                    assert(p(i as int));
                    return false;
                }
                i = i + 1;
            }
            true
        },
    }
}

/// The value of the first `name=value` item of the decoded query `d`.
fn query_get(d: &Vec<char>, name: &str) -> (r: Option<Vec<char>>)
    ensures
        match r {
            Some(v) => query_lookup(d@, name@) == Some(v@),
            None => query_lookup(d@, name@) is None,
        },
{
    let nm = chars_of(name);
    let items = split(d.as_slice(), '&');
    let ghost spl = split_spec(d@, '&');
    let ghost p = query_key_at(spl, name@);
    let mut k: usize = 0;
    while k < items.len()
        invariant
            k <= items.len(),
            nm@ == name@,
            spl == split_spec(d@, '&'),
            items@.len() == spl.len(),
            forall|j: int| 0 <= j < items@.len() ==> #[trigger] items@[j]@ == spl[j],
            p == query_key_at(spl, name@),
            first_where(0, spl.len() as int, p) == first_where(k as int, spl.len() as int, p),
        decreases items.len() - k,
    {
        assert(items@[k as int]@ == spl[k as int]);
        match split_once(items[k].as_slice(), '=') {
            Some((key, val)) => {
                if seq_eq(key.as_slice(), nm.as_slice()) {
                    assert(p(k as int));
                    return Some(val);
                }
            },
            None => {},
        }
        k = k + 1;
    }
    None
}

/// One query condition holds for the decoded query `d`.
fn query_matches(qc: &SgHttpQueryMatchInst, d: &Vec<char>) -> (r: bool)
    requires
        !query_unsafe(*qc, d@),
    ensures
        r == query_cond_ok(*qc, d@),
{
    match query_get(d, qc.name.as_str()) {
        None => false,
        Some(v) => match qc.kind {
            SgHttpQueryMatchType::Exact => {
                let want = chars_of(qc.value.as_str());
                seq_eq(v.as_slice(), want.as_slice())
            },
            SgHttpQueryMatchType::Regular => match &qc.regular {
                Some(re) => {
                    let text = string_of(v.as_slice());
                    re.is_match(text.as_str())
                },
                None => false,
            },
        },
    }
}

/// All query conditions hold for the request's decoded query.
fn queries_match(m: &SgHttpRouteMatchInst, req: &SgRequestParts) -> (r: bool)
    requires
        queries_safe(*m, *req),
    ensures
        r == queries_ok(*m, *req),
{
    match &m.query {
        None => true,
        Some(qs) => {
            if qs.len() == 0 {
                return true;
            }
            match &req.query {
                None => false,
                Some(q) => {
                    let decoded = url_decode(q.as_str());
                    match decoded {
                        None => false,
                        Some(ds) => {
                            let d = chars_of(ds.as_str());
                            let ghost p = query_fails_at(qs@, d@);
                            let mut i: usize = 0;
                            while i < qs.len()
                                invariant
                                    i <= qs.len(),
                                    p == query_fails_at(qs@, d@),
                                    m.query == Some(*qs),
                                    req.query == Some(*q),
                                    url_decode_spec(q@) == Some(d@),
                                    queries_safe(*m, *req),
                                    first_where(0, qs@.len() as int, p) == first_where(i as int, qs@.len() as int, p),
                                    forall|j: int| 0 <= j < i ==> query_cond_ok(#[trigger] qs@[j], d@),
                                decreases qs.len() - i,
                            {
                                if !query_matches(&qs[i], &d) {
                                    assert(p(i as int));
                                    return false;
                                }
                                i = i + 1;
                            }
                            true
                        },
                    }
                },
            }
        },
    }
}

/// All conditions of one match hold.
fn match_one(m: &SgHttpRouteMatchInst, req: &SgRequestParts) -> (r: bool)
    requires
        match_safe(*m, *req),
    ensures
        r == match_passes(*m, *req),
{
    method_matches(m, req) && path_matches(m, req) && headers_match(m, req) && queries_match(m, req)
}

/// Whether a `Regular` path condition has its compiled regex.
fn path_safe_check(m: &SgHttpRouteMatchInst) -> (r: bool)
    ensures
        r == path_safe(*m),
{
    match &m.path {
        Some(p) => match p.kind {
            SgHttpPathMatchType::Regular => p.regular.is_some(),
            _ => true,
        },
        None => true,
    }
}

/// Whether evaluating `h` would need a missing regex.
fn header_unsafe_check(h: &SgHttpHeaderMatchInst, req: &SgRequestParts) -> (r: bool)
    ensures
        r == header_unsafe(*h, *req),
{
    match header_get(&req.headers, h.name.as_str()) {
        None => false,
        Some(v) => {
            if v.len() == 0 {
                return false;
            }
            match header_text(v) {
                None => false,
                Some(_) => match h.kind {
                    SgHttpHeaderMatchType::Regular => h.regular.is_none(),
                    _ => false,
                },
            }
        },
    }
}

/// Whether the header conditions can be checked (see [`headers_safe`]).
fn headers_safe_check(m: &SgHttpRouteMatchInst, req: &SgRequestParts) -> (r: bool)
    ensures
        r == headers_safe(*m, *req),
{
    match &m.header {
        None => true,
        Some(hs) => {
            let ghost p = header_fails_at(hs@, *req);
            let mut i: usize = 0;
            while i < hs.len()
                invariant
                    i <= hs.len(),
                    p == header_fails_at(hs@, *req),
                    m.header == Some(*hs),
                    first_where(0, hs@.len() as int, p) == first_where(i as int, hs@.len() as int, p),
                decreases hs.len() - i,
            {
                if header_unsafe_check(&hs[i], req) {
                    assert(p(i as int));
                    return false;
                }
                if !header_matches(&hs[i], req) {
                    assert(p(i as int));
                    return true;
                }
                i = i + 1;
            }
            true
        },
    }
}

/// Whether evaluating `qc` on the decoded query `d` would need a missing
/// regex.
fn query_unsafe_check(qc: &SgHttpQueryMatchInst, d: &Vec<char>) -> (r: bool)
    ensures
        r == query_unsafe(*qc, d@),
{
    match query_get(d, qc.name.as_str()) {
        None => false,
        Some(_) => match qc.kind {
            SgHttpQueryMatchType::Regular => qc.regular.is_none(),
            _ => false,
        },
    }
}

/// Whether the query conditions can be checked (see [`queries_safe`]).
fn queries_safe_check(m: &SgHttpRouteMatchInst, req: &SgRequestParts) -> (r: bool)
    ensures
        r == queries_safe(*m, *req),
{
    match &m.query {
        None => true,
        Some(qs) => {
            if qs.len() == 0 {
                return true;
            }
            match &req.query {
                None => true,
                Some(q) => {
                    match url_decode(q.as_str()) {
                        None => false,
                        Some(ds) => {
                            let d = chars_of(ds.as_str());
                            let ghost p = query_fails_at(qs@, d@);
                            let mut i: usize = 0;
                            while i < qs.len()
                                invariant
                                    i <= qs.len(),
                                    p == query_fails_at(qs@, d@),
                                    m.query == Some(*qs),
                                    req.query == Some(*q),
                                    url_decode_spec(q@) == Some(d@),
                                    first_where(0, qs@.len() as int, p) == first_where(i as int, qs@.len() as int, p),
                                decreases qs.len() - i,
                            {
                                if query_unsafe_check(&qs[i], &d) {
                                    assert(p(i as int));
                                    return false;
                                }
                                if !query_matches(&qs[i], &d) {
                                    assert(p(i as int));
                                    return true;
                                }
                                i = i + 1;
                            }
                            true
                        },
                    }
                },
            }
        },
    }
}

/// Whether the match can be checked (see [`match_safe`]).
fn match_safe_check(m: &SgHttpRouteMatchInst, req: &SgRequestParts) -> (r: bool)
    ensures
        r == match_safe(*m, *req),
{
    if !method_matches(m, req) {
        return true;
    }
    if !path_safe_check(m) {
        return false;
    }
    if !path_matches(m, req) {
        return true;
    }
    if !headers_safe_check(m, req) {
        return false;
    }
    if !headers_match(m, req) {
        return true;
    }
    queries_safe_check(m, req)
}

/// Whether the matches of a rule can be checked (see [`rule_match_safe`]).
pub fn rule_match_safe_check(req: &SgRequestParts, rule_matches: Option<&Vec<SgHttpRouteMatchInst>>) -> (r: bool)
    ensures
        r == rule_match_safe(opt_matches(rule_matches), *req),
{
    match rule_matches {
        None => true,
        Some(ms) => {
            let ghost q = stops_at(ms@, *req);
            let mut i: usize = 0;
            while i < ms.len()
                invariant
                    i <= ms.len(),
                    rule_matches == Some(ms),
                    q == stops_at(ms@, *req),
                    first_where(0, ms@.len() as int, q) == first_where(i as int, ms@.len() as int, q),
                decreases ms.len() - i,
            {
                if !match_safe_check(&ms[i], req) {
                    assert(q(i as int));
                    return false;
                }
                if match_one(&ms[i], req) {
                    assert(q(i as int));
                    return true;
                }
                i = i + 1;
            }
            true
        },
    }
}

/// The rule's matches as a plain value.
pub open spec fn opt_matches(rule_matches: Option<&Vec<SgHttpRouteMatchInst>>) -> Option<Vec<SgHttpRouteMatchInst>> {
    match rule_matches {
        Some(v) => Some(*v),
        None => None,
    }
}

/// Matches a request against the matches of a rule. Without matches every
/// request matches and no match is reported; otherwise the first match
/// whose method, path, header and query conditions all hold is reported by
/// its index, and `(false, None)` says that none holds.
pub fn match_rule_inst(req: &SgRequestParts, rule_matches: Option<&Vec<SgHttpRouteMatchInst>>) -> (r: (bool, Option<usize>))
    requires
        rule_match_safe(opt_matches(rule_matches), *req),
    ensures
        r.0 == rule_match_result(opt_matches(rule_matches), *req).0,
        r.1 matches Some(i) ==> rule_match_result(opt_matches(rule_matches), *req).1 == Some(i as int),
        r.1 is None ==> rule_match_result(opt_matches(rule_matches), *req).1 is None,
{
    match rule_matches {
        None => (true, None),
        Some(ms) => {
            let ghost p = passes_at(ms@, *req);
            let ghost q = stops_at(ms@, *req);
            let mut i: usize = 0;
            while i < ms.len()
                invariant
                    i <= ms.len(),
                    rule_matches == Some(ms),
                    p == passes_at(ms@, *req),
                    q == stops_at(ms@, *req),
                    rule_match_safe(Some(*ms), *req),
                    first_where(0, ms@.len() as int, p) == first_where(i as int, ms@.len() as int, p),
                    first_where(0, ms@.len() as int, q) == first_where(i as int, ms@.len() as int, q),
                decreases ms.len() - i,
            {
                proof {
                    if !match_safe(ms@[i as int], *req) {
                        assert(q(i as int));
                    }
                }
                if match_one(&ms[i], req) {
                    assert(p(i as int));
                    assert(first_where(i as int, ms@.len() as int, p) == Some(i as int));
                    return (true, Some(i));
                }
                i = i + 1;
            }
            (false, None)
        },
    }
}

/* ------------------------------------------------------------------------
   Hostname priority
   ------------------------------------------------------------------------ */

/// The one-character hostname `*`.
pub open spec fn star() -> Seq<char> {
    seq!['*']
}

/// A wildcard hostname such as `*.example.com` matches `host` label by
/// label, a `*` label matching any label.
pub open spec fn wildcard_host_match(pattern: Seq<char>, host: Seq<char>) -> bool {
    let a = split_spec(host, '.');
    let b = split_spec(pattern, '.');
    a.len() == b.len() && forall|k: int| 0 <= k < a.len() ==> (b[k] == star() || #[trigger] a[k] == b[k])
}

/// The priority class of a route for a request host: 0 when a hostname of
/// the route equals the host, 2 when the route names no hostname or `*`,
/// 1 when a wildcard hostname matches, and 3 when the route does not serve
/// the host.
pub open spec fn host_category(route: SgHttpRouteInst, host: Seq<char>) -> int {
    match route.hostnames {
        None => 2,
        Some(hs) => if exists|i: int| 0 <= i < hs@.len() && #[trigger] hs@[i]@ == host {
            0
        } else if exists|i: int| 0 <= i < hs@.len() && #[trigger] hs@[i]@ == star() {
            2
        } else if exists|i: int| 0 <= i < hs@.len() && wildcard_host_match(#[trigger] hs@[i]@, host) {
            1
        } else {
            3
        },
    }
}

/// Whether route `i` belongs to priority class `c`; without a request host
/// only the routes without hostnames belong to the lowest class.
pub open spec fn in_class(routes: Seq<SgHttpRouteInst>, host: Option<Seq<char>>, c: int, i: int) -> bool {
    match host {
        Some(h) => host_category(routes[i], h) == c,
        None => c == 2 && routes[i].hostnames is None,
    }
}

/// The indices below `n` of the routes in class `c`, in increasing order.
pub open spec fn class_indices(routes: Seq<SgHttpRouteInst>, host: Option<Seq<char>>, c: int, n: int) -> Seq<usize>
    decreases n,
{
    if n <= 0 {
        Seq::<usize>::empty()
    } else if in_class(routes, host, c, n - 1) {
        class_indices(routes, host, c, n - 1).push((n - 1) as usize)
    } else {
        class_indices(routes, host, c, n - 1)
    }
}

/// Some hostname of the list equals `host`.
fn any_hostname_is(hs: &Vec<String>, host: &Vec<char>) -> (r: bool)
    ensures
        r == exists|i: int| 0 <= i < hs@.len() && #[trigger] hs@[i]@ == host@,
{
    let mut i: usize = 0;
    while i < hs.len()
        invariant
            i <= hs.len(),
            forall|j: int| 0 <= j < i ==> #[trigger] hs@[j]@ != host@,
        decreases hs.len() - i,
    {
        let c = chars_of(hs[i].as_str());
        if seq_eq(c.as_slice(), host.as_slice()) {
            return true;
        }
        i = i + 1;
    }
    false
}

/// `pattern` matches `host` label by label.
fn wildcard_matches(pattern: &Vec<char>, host: &Vec<char>) -> (r: bool)
    ensures
        r == wildcard_host_match(pattern@, host@),
{
    let a = split(host.as_slice(), '.');
    let b = split(pattern.as_slice(), '.');
    if a.len() != b.len() {
        return false;
    }
    let st: [char; 1] = ['*'];
    assert(st@ == star());
    let mut k: usize = 0;
    while k < a.len()
        invariant
            k <= a.len(),
            a.len() == b.len(),
            st@ == star(),
            a@.len() == split_spec(host@, '.').len(),
            b@.len() == split_spec(pattern@, '.').len(),
            forall|j: int| 0 <= j < a@.len() ==> #[trigger] a@[j]@ == split_spec(host@, '.')[j],
            forall|j: int| 0 <= j < b@.len() ==> #[trigger] b@[j]@ == split_spec(pattern@, '.')[j],
            forall|j: int|
                0 <= j < k ==> (split_spec(pattern@, '.')[j] == star() || #[trigger] split_spec(host@, '.')[j]
                    == split_spec(pattern@, '.')[j]),
        decreases a.len() - k,
    {
        assert(a@[k as int]@ == split_spec(host@, '.')[k as int]);
        assert(b@[k as int]@ == split_spec(pattern@, '.')[k as int]);
        if !seq_eq(b[k].as_slice(), st.as_slice()) && !seq_eq(a[k].as_slice(), b[k].as_slice()) {
            return false;
        }
        k = k + 1;
    }
    true
}

/// The priority class of one route for the request host.
fn route_category(route: &SgHttpRouteInst, host: &Vec<char>) -> (r: u8)
    ensures
        r as int == host_category(*route, host@),
{
    match &route.hostnames {
        None => 2,
        Some(hs) => {
            if any_hostname_is(hs, host) {
                return 0;
            }
            let st: Vec<char> = vec!['*'];
            assert(st@ == star());
            if any_hostname_is(hs, &st) {
                return 2;
            }
            let ghost exact = exists|i: int| 0 <= i < hs@.len() && #[trigger] hs@[i]@ == host@;
            let ghost starred = exists|i: int| 0 <= i < hs@.len() && #[trigger] hs@[i]@ == star();
            let mut i: usize = 0;
            while i < hs.len()
                invariant
                    i <= hs.len(),
                    route.hostnames == Some(*hs),
                    !exact,
                    !starred,
                    exact == exists|i: int| 0 <= i < hs@.len() && #[trigger] hs@[i]@ == host@,
                    starred == exists|i: int| 0 <= i < hs@.len() && #[trigger] hs@[i]@ == star(),
                    forall|j: int| 0 <= j < i ==> !wildcard_host_match(#[trigger] hs@[j]@, host@),
                decreases hs.len() - i,
            {
                let c = chars_of(hs[i].as_str());
                if wildcard_matches(&c, host) {
                    let ghost hn = route.hostnames->0;
                    assert(wildcard_host_match(hn@[i as int]@, host@));
                    return 1;
                }
                i = i + 1;
            }
            3
        },
    }
}

/// Sorts the routes by how their hostnames match the request host. The
/// first list holds the routes with a hostname equal to the host, the
/// second those with a matching wildcard hostname, the third those without
/// hostnames or with `*`; routes serving other hosts are left out. Without
/// a request host only the routes without hostnames are listed, in the
/// third list. Each list keeps the routes' order and holds their indices.
pub fn match_route_insts_with_hostname_priority(req_host: Option<&str>, routes: &[SgHttpRouteInst]) -> (r: (Vec<usize>, Vec<usize>, Vec<usize>))
    ensures
        r.0@ == class_indices(routes@, opt_text(req_host), 0, routes@.len() as int),
        r.1@ == class_indices(routes@, opt_text(req_host), 1, routes@.len() as int),
        r.2@ == class_indices(routes@, opt_text(req_host), 2, routes@.len() as int),
{
    let mut highest: Vec<usize> = Vec::new();
    let mut wildcard: Vec<usize> = Vec::new();
    let mut lowest: Vec<usize> = Vec::new();
    let host: Option<Vec<char>> = match req_host {
        Some(h) => Some(chars_of(h)),
        None => None,
    };
    let mut i: usize = 0;
    while i < routes.len()
        invariant
            i <= routes.len(),
            match host {
                Some(h) => opt_text(req_host) == Some(h@),
                None => opt_text(req_host) is None,
            },
            highest@ == class_indices(routes@, opt_text(req_host), 0, i as int),
            wildcard@ == class_indices(routes@, opt_text(req_host), 1, i as int),
            lowest@ == class_indices(routes@, opt_text(req_host), 2, i as int),
        decreases routes.len() - i,
    {
        match &host {
            Some(h) => {
                let c = route_category(&routes[i], h);
                if c == 0 {
                    highest.push(i);
                } else if c == 1 {
                    wildcard.push(i);
                } else if c == 2 {
                    lowest.push(i);
                }
            },
            None => {
                if routes[i].hostnames.is_none() {
                    lowest.push(i);
                }
            },
        }
        i = i + 1;
    }
    (highest, wildcard, lowest)
}

/// An optional string slice as an optional character sequence.
pub open spec fn opt_text(s: Option<&str>) -> Option<Seq<char>> {
    match s {
        Some(t) => Some(t@),
        None => None,
    }
}

/* ------------------------------------------------------------------------
   Route selection
   ------------------------------------------------------------------------ */

/// The state of the search for a route: the outcome of the last rule
/// checked, the rule and route chosen so far, and the first route and rule
/// of the current priority class that matched without a concrete match.
#[derive(Debug, Clone, Copy)]
pub struct RouteSearch {
    pub matched: bool,
    pub matched_match: Option<(usize, usize, usize)>,
    pub matched_rule: Option<(usize, usize)>,
    pub matched_route: Option<usize>,
    pub first_rule: Option<(usize, usize)>,
    pub first_route: Option<usize>,
}

/// The request host as a character sequence.
pub open spec fn req_host_text(req: SgRequestParts) -> Option<Seq<char>> {
    match req.host {
        Some(h) => Some(h@),
        None => None,
    }
}

/// The search before any route is looked at.
pub open spec fn search_start() -> RouteSearch {
    RouteSearch {
        matched: false,
        matched_match: None,
        matched_rule: None,
        matched_route: None,
        first_rule: None,
        first_route: None,
    }
}

/// The rules of route `r` (empty when it has none).
pub open spec fn rules_of(routes: Seq<SgHttpRouteInst>, r: int) -> Seq<SgHttpRouteRuleInst> {
    match routes[r].rules {
        Some(rules) => rules@,
        None => Seq::<SgHttpRouteRuleInst>::empty(),
    }
}

/// Checks the rules of route `r` from rule `j` on: each rule's outcome
/// becomes the last outcome; the first rule with a concrete match is chosen
/// and ends the scan; the first rule matching without one is remembered.
pub open spec fn rule_scan(req: SgRequestParts, routes: Seq<SgHttpRouteInst>, r: int, j: int, st: RouteSearch) -> RouteSearch
    decreases rules_of(routes, r).len() - j,
{
    let rules = rules_of(routes, r);
    if j < 0 || j >= rules.len() {
        st
    } else {
        let res = rule_match_result(rules[j].matches, req);
        let st1 = RouteSearch {
            matched: res.0,
            matched_match: match res.1 {
                Some(x) => Some((r as usize, j as usize, x as usize)),
                None => None,
            },
            ..st
        };
        if res.0 && res.1 is Some {
            RouteSearch { matched_rule: Some((r as usize, j as usize)), ..st1 }
        } else if res.0 && st1.first_rule is None {
            rule_scan(req, routes, r, j + 1, RouteSearch { first_rule: Some((r as usize, j as usize)), ..st1 })
        } else {
            rule_scan(req, routes, r, j + 1, st1)
        }
    }
}

/// The rules checked by `rule_scan` can all be checked.
pub open spec fn rule_scan_safe(req: SgRequestParts, routes: Seq<SgHttpRouteInst>, r: int, j: int, st: RouteSearch) -> bool
    decreases rules_of(routes, r).len() - j,
{
    let rules = rules_of(routes, r);
    if j < 0 || j >= rules.len() {
        true
    } else {
        let res = rule_match_result(rules[j].matches, req);
        let st1 = RouteSearch {
            matched: res.0,
            matched_match: match res.1 {
                Some(x) => Some((r as usize, j as usize, x as usize)),
                None => None,
            },
            ..st
        };
        rule_match_safe(rules[j].matches, req) && if res.0 && res.1 is Some {
            true
        } else if res.0 && st1.first_rule is None {
            rule_scan_safe(req, routes, r, j + 1, RouteSearch { first_rule: Some((r as usize, j as usize)), ..st1 })
        } else {
            rule_scan_safe(req, routes, r, j + 1, st1)
        }
    }
}

/// Looks at route `r`: a route with rules is scanned, and chosen when one
/// of its rules has a concrete match; a route whose rules matched without
/// one, or that has no rules, is remembered as the first candidate of its
/// class. The flag tells whether the search is over.
pub open spec fn route_step(req: SgRequestParts, routes: Seq<SgHttpRouteInst>, r: int, st: RouteSearch) -> (RouteSearch, bool) {
    if routes[r].rules is Some {
        let st1 = rule_scan(req, routes, r, 0, st);
        let st2 = if st1.matched_rule is None {
            RouteSearch { matched_rule: st1.first_rule, ..st1 }
        } else {
            st1
        };
        if st2.matched && st2.matched_match is Some {
            (RouteSearch { matched_route: Some(r as usize), ..st2 }, true)
        } else if st2.matched && st2.first_route is None {
            (RouteSearch { first_route: Some(r as usize), ..st2 }, false)
        } else {
            (st2, false)
        }
    } else {
        let st1 = if st.first_route is None {
            RouteSearch { first_route: Some(r as usize), ..st }
        } else {
            st
        };
        if st1.matched && st1.matched_match is Some {
            (RouteSearch { matched_route: Some(r as usize), ..st1 }, true)
        } else {
            (st1, false)
        }
    }
}

/// Looks at the routes of one priority class from position `k` on.
pub open spec fn route_scan(req: SgRequestParts, routes: Seq<SgHttpRouteInst>, list: Seq<usize>, k: int, st: RouteSearch) -> RouteSearch
    decreases list.len() - k,
{
    if k < 0 || k >= list.len() {
        st
    } else {
        let step = route_step(req, routes, list[k] as int, st);
        if step.1 {
            step.0
        } else {
            route_scan(req, routes, list, k + 1, step.0)
        }
    }
}

/// The rules checked while looking at the routes of a class can all be
/// checked.
pub open spec fn route_scan_safe(req: SgRequestParts, routes: Seq<SgHttpRouteInst>, list: Seq<usize>, k: int, st: RouteSearch) -> bool
    decreases list.len() - k,
{
    if k < 0 || k >= list.len() {
        true
    } else {
        let r = list[k] as int;
        let step = route_step(req, routes, r, st);
        (routes[r].rules is Some ==> rule_scan_safe(req, routes, r, 0, st)) && (step.1 || route_scan_safe(req, routes, list, k + 1, step.0))
    }
}

/// Looks at one priority class: its candidates start afresh, and when no
/// route was chosen its first candidate route is taken.
pub open spec fn class_step(req: SgRequestParts, routes: Seq<SgHttpRouteInst>, list: Seq<usize>, st: RouteSearch) -> RouteSearch {
    let st0 = RouteSearch { first_route: None, first_rule: None, ..st };
    let st1 = route_scan(req, routes, list, 0, st0);
    if st1.first_route is Some && st1.matched_route is None {
        RouteSearch { matched_route: st1.first_route, ..st1 }
    } else {
        st1
    }
}

/// The start of `class_step`'s scan.
pub open spec fn class_start(st: RouteSearch) -> RouteSearch {
    RouteSearch { first_route: None, first_rule: None, ..st }
}

/// The search over the three priority classes, stopping at the first class
/// that yields a route.
pub open spec fn route_search(req: SgRequestParts, routes: Seq<SgHttpRouteInst>) -> RouteSearch {
    let host = req_host_text(req);
    let n = routes.len() as int;
    let s1 = class_step(req, routes, class_indices(routes, host, 0, n), search_start());
    if s1.matched_route is Some {
        s1
    } else {
        let s2 = class_step(req, routes, class_indices(routes, host, 1, n), s1);
        if s2.matched_route is Some {
            s2
        } else {
            class_step(req, routes, class_indices(routes, host, 2, n), s2)
        }
    }
}

/// Every rule the search checks can be checked.
pub open spec fn route_search_safe(req: SgRequestParts, routes: Seq<SgHttpRouteInst>) -> bool {
    let host = req_host_text(req);
    let n = routes.len() as int;
    let s1 = class_step(req, routes, class_indices(routes, host, 0, n), search_start());
    let s2 = class_step(req, routes, class_indices(routes, host, 1, n), s1);
    &&& route_scan_safe(req, routes, class_indices(routes, host, 0, n), 0, class_start(search_start()))
    &&& s1.matched_route is None ==> route_scan_safe(req, routes, class_indices(routes, host, 1, n), 0, class_start(s1))
    &&& (s1.matched_route is None && s2.matched_route is None) ==> route_scan_safe(
        req,
        routes,
        class_indices(routes, host, 2, n),
        0,
        class_start(s2),
    )
}

fn rule_scan_exec(req: &SgRequestParts, routes: &[SgHttpRouteInst], r: usize, st: RouteSearch) -> (out: RouteSearch)
    requires
        r < routes@.len(),
        routes@[r as int].rules is Some,
        rule_scan_safe(*req, routes@, r as int, 0, st),
    ensures
        out == rule_scan(*req, routes@, r as int, 0, st),
{
    let rules = routes[r].rules.as_ref().unwrap();
    let mut cur = st;
    let mut j: usize = 0;
    while j < rules.len()
        invariant
            r < routes@.len(),
            routes@[r as int].rules == Some(*rules),
            j <= rules.len(),
            rule_scan(*req, routes@, r as int, 0, st) == rule_scan(*req, routes@, r as int, j as int, cur),
            rule_scan_safe(*req, routes@, r as int, j as int, cur),
        decreases rules.len() - j,
    {
        let res = match_rule_inst(req, rules[j].matches.as_ref());
        let mm = match res.1 {
            Some(x) => Some((r, j, x)),
            None => None,
        };
        cur = RouteSearch { matched: res.0, matched_match: mm, ..cur };
        if res.0 && res.1.is_some() {
            return RouteSearch { matched_rule: Some((r, j)), ..cur };
        }
        if res.0 && cur.first_rule.is_none() {
            cur = RouteSearch { first_rule: Some((r, j)), ..cur };
        }
        j = j + 1;
    }
    cur
}

fn route_step_exec(req: &SgRequestParts, routes: &[SgHttpRouteInst], r: usize, st: RouteSearch) -> (out: (RouteSearch, bool))
    requires
        r < routes@.len(),
        routes@[r as int].rules is Some ==> rule_scan_safe(*req, routes@, r as int, 0, st),
    ensures
        out == route_step(*req, routes@, r as int, st),
{
    if routes[r].rules.is_some() {
        let st1 = rule_scan_exec(req, routes, r, st);
        let st2 = if st1.matched_rule.is_none() {
            RouteSearch { matched_rule: st1.first_rule, ..st1 }
        } else {
            st1
        };
        if st2.matched && st2.matched_match.is_some() {
            (RouteSearch { matched_route: Some(r), ..st2 }, true)
        } else if st2.matched && st2.first_route.is_none() {
            (RouteSearch { first_route: Some(r), ..st2 }, false)
        } else {
            (st2, false)
        }
    } else {
        let st1 = if st.first_route.is_none() {
            RouteSearch { first_route: Some(r), ..st }
        } else {
            st
        };
        if st1.matched && st1.matched_match.is_some() {
            (RouteSearch { matched_route: Some(r), ..st1 }, true)
        } else {
            (st1, false)
        }
    }
}

fn class_step_exec(req: &SgRequestParts, routes: &[SgHttpRouteInst], list: &Vec<usize>, st: RouteSearch) -> (out: RouteSearch)
    requires
        forall|k: int| 0 <= k < list@.len() ==> #[trigger] list@[k] < routes@.len(),
        route_scan_safe(*req, routes@, list@, 0, class_start(st)),
    ensures
        out == class_step(*req, routes@, list@, st),
{
    let st0 = RouteSearch { first_route: None, first_rule: None, ..st };
    let mut cur = st0;
    let mut k: usize = 0;
    while k < list.len()
        invariant_except_break
            route_scan(*req, routes@, list@, 0, st0) == route_scan(*req, routes@, list@, k as int, cur),
            route_scan_safe(*req, routes@, list@, k as int, cur),
        invariant
            forall|k: int| 0 <= k < list@.len() ==> #[trigger] list@[k] < routes@.len(),
            k <= list.len(),
            st0 == class_start(st),
        ensures
            route_scan(*req, routes@, list@, 0, st0) == cur,
        decreases list.len() - k,
    {
        let r = list[k];
        let step = route_step_exec(req, routes, r, cur);
        if step.1 {
            cur = step.0;
            break;
        }
        cur = step.0;
        k = k + 1;
    }
    if cur.first_route.is_some() && cur.matched_route.is_none() {
        RouteSearch { matched_route: cur.first_route, ..cur }
    } else {
        cur
    }
}

/// Whether the rules of route `r` that the scan checks can all be checked
/// (see [`rule_scan_safe`]).
fn rule_scan_safe_check(req: &SgRequestParts, routes: &[SgHttpRouteInst], r: usize, st: RouteSearch) -> (out: bool)
    requires
        r < routes@.len(),
        routes@[r as int].rules is Some,
    ensures
        out == rule_scan_safe(*req, routes@, r as int, 0, st),
{
    let rules = routes[r].rules.as_ref().unwrap();
    let mut cur = st;
    let mut j: usize = 0;
    while j < rules.len()
        invariant
            r < routes@.len(),
            routes@[r as int].rules == Some(*rules),
            j <= rules.len(),
            rule_scan_safe(*req, routes@, r as int, 0, st) == rule_scan_safe(*req, routes@, r as int, j as int, cur),
        decreases rules.len() - j,
    {
        if !rule_match_safe_check(req, rules[j].matches.as_ref()) {
            return false;
        }
        let res = match_rule_inst(req, rules[j].matches.as_ref());
        let mm = match res.1 {
            Some(x) => Some((r, j, x)),
            None => None,
        };
        cur = RouteSearch { matched: res.0, matched_match: mm, ..cur };
        if res.0 && res.1.is_some() {
            return true;
        }
        if res.0 && cur.first_rule.is_none() {
            cur = RouteSearch { first_rule: Some((r, j)), ..cur };
        }
        j = j + 1;
    }
    true
}

/// Whether the rules checked while looking at the routes of a class can
/// all be checked (see [`route_scan_safe`]).
fn class_safe_check(req: &SgRequestParts, routes: &[SgHttpRouteInst], list: &Vec<usize>, st: RouteSearch) -> (out: bool)
    requires
        forall|k: int| 0 <= k < list@.len() ==> #[trigger] list@[k] < routes@.len(),
    ensures
        out == route_scan_safe(*req, routes@, list@, 0, class_start(st)),
{
    let st0 = RouteSearch { first_route: None, first_rule: None, ..st };
    let mut cur = st0;
    let mut k: usize = 0;
    while k < list.len()
        invariant
            forall|k: int| 0 <= k < list@.len() ==> #[trigger] list@[k] < routes@.len(),
            k <= list.len(),
            st0 == class_start(st),
            route_scan_safe(*req, routes@, list@, 0, st0) == route_scan_safe(*req, routes@, list@, k as int, cur),
        decreases list.len() - k,
    {
        let r = list[k];
        if routes[r].rules.is_some() && !rule_scan_safe_check(req, routes, r, cur) {
            return false;
        }
        let step = route_step_exec(req, routes, r, cur);
        if step.1 {
            return true;
        }
        cur = step.0;
        k = k + 1;
    }
    true
}

/// Whether every rule the search for a route checks can be checked (see
/// [`route_search_safe`]).
pub fn route_search_safe_check(req: &SgRequestParts, routes: &[SgHttpRouteInst]) -> (r: bool)
    ensures
        r == route_search_safe(*req, routes@),
{
    let host = match &req.host {
        Some(h) => Some(h.as_str()),
        None => None,
    };
    let (highest, second, lowest) = match_route_insts_with_hostname_priority(host, routes);
    let ghost h = req_host_text(*req);
    assert(opt_text(host) == h);
    let len = routes.len();
    let ghost n = routes@.len() as int;
    assert(n == len);
    proof {
        lemma_class_indices_bounded(routes@, h, 0, n);
        lemma_class_indices_bounded(routes@, h, 1, n);
        lemma_class_indices_bounded(routes@, h, 2, n);
    }
    let start = RouteSearch {
        matched: false,
        matched_match: None,
        matched_rule: None,
        matched_route: None,
        first_rule: None,
        first_route: None,
    };
    if !class_safe_check(req, routes, &highest, start) {
        return false;
    }
    let s1 = class_step_exec(req, routes, &highest, start);
    if s1.matched_route.is_some() {
        return true;
    }
    if !class_safe_check(req, routes, &second, s1) {
        return false;
    }
    let s2 = class_step_exec(req, routes, &second, s1);
    if s2.matched_route.is_some() {
        return true;
    }
    class_safe_check(req, routes, &lowest, s2)
}

/// Chooses the route, rule and match for a request. Routes are taken in
/// hostname priority: exact hostnames first, then wildcard hostnames, then
/// routes without hostnames (or `*`); a higher class is always preferred
/// when it yields a route. Within a class the first route with a rule whose
/// matches concretely match the request is chosen; failing that, the first
/// route whose rules matched without a concrete match, or that has no
/// rules. The result holds the chosen route's index, the chosen rule as
/// (route, rule) and the last match found as (route, rule, match).
pub fn match_route_process(req: &SgRequestParts, routes: &[SgHttpRouteInst]) -> (r: (Option<usize>, Option<(usize, usize)>, Option<(usize, usize, usize)>))
    requires
        route_search_safe(*req, routes@),
    ensures
        r.0 == route_search(*req, routes@).matched_route,
        r.1 == route_search(*req, routes@).matched_rule,
        r.2 == route_search(*req, routes@).matched_match,
{
    let host = match &req.host {
        Some(h) => Some(h.as_str()),
        None => None,
    };
    let (highest, second, lowest) = match_route_insts_with_hostname_priority(host, routes);
    let ghost h = req_host_text(*req);
    assert(opt_text(host) == h);
    let len = routes.len();
    let ghost n = routes@.len() as int;
    assert(n == len);
    proof {
        lemma_class_indices_bounded(routes@, h, 0, n);
        lemma_class_indices_bounded(routes@, h, 1, n);
        lemma_class_indices_bounded(routes@, h, 2, n);
    }
    let start = RouteSearch {
        matched: false,
        matched_match: None,
        matched_rule: None,
        matched_route: None,
        first_rule: None,
        first_route: None,
    };
    let s1 = class_step_exec(req, routes, &highest, start);
    let fin = if s1.matched_route.is_some() {
        s1
    } else {
        let s2 = class_step_exec(req, routes, &second, s1);
        if s2.matched_route.is_some() {
            s2
        } else {
            class_step_exec(req, routes, &lowest, s2)
        }
    };
    (fin.matched_route, fin.matched_rule, fin.matched_match)
}

/// A rule without matches matches every request, reporting no match.
pub proof fn lemma_rule_without_matches(req: SgRequestParts)
    ensures
        rule_match_safe(None, req),
        rule_match_result(None, req) == (true, None::<int>),
{
}

/// Scanning the rules of a route chooses no route.
proof fn lemma_rule_scan_keeps_routes(req: SgRequestParts, routes: Seq<SgHttpRouteInst>, r: int, j: int, st: RouteSearch)
    ensures
        rule_scan(req, routes, r, j, st).matched_route == st.matched_route,
        rule_scan(req, routes, r, j, st).first_route == st.first_route,
    decreases rules_of(routes, r).len() - j,
{
    let rules = rules_of(routes, r);
    if 0 <= j < rules.len() {
        let res = rule_match_result(rules[j].matches, req);
        let st1 = RouteSearch {
            matched: res.0,
            matched_match: match res.1 {
                Some(x) => Some((r as usize, j as usize, x as usize)),
                None => None,
            },
            ..st
        };
        if !(res.0 && res.1 is Some) {
            if res.0 && st1.first_rule is None {
                lemma_rule_scan_keeps_routes(req, routes, r, j + 1, RouteSearch { first_rule: Some((r as usize, j as usize)), ..st1 });
            } else {
                lemma_rule_scan_keeps_routes(req, routes, r, j + 1, st1);
            }
        }
    }
}

/// Looking at routes from position `k` of a class chooses, and remembers,
/// only routes at or after `k`.
proof fn lemma_route_scan_routes(req: SgRequestParts, routes: Seq<SgHttpRouteInst>, list: Seq<usize>, k: int, st: RouteSearch)
    requires
        0 <= k,
    ensures
        ({
            let out = route_scan(req, routes, list, k, st);
            &&& out.matched_route == st.matched_route || exists|i: int| k <= i < list.len() && out.matched_route == Some(#[trigger] list[i])
            &&& out.first_route == st.first_route || exists|i: int| k <= i < list.len() && out.first_route == Some(#[trigger] list[i])
        }),
    decreases list.len() - k,
{
    if k < list.len() {
        let r = list[k] as int;
        if routes[r].rules is Some {
            lemma_rule_scan_keeps_routes(req, routes, r, 0, st);
        }
        let step = route_step(req, routes, r, st);
        if !step.1 {
            lemma_route_scan_routes(req, routes, list, k + 1, step.0);
            let out = route_scan(req, routes, list, k, st);
            assert(out == route_scan(req, routes, list, k + 1, step.0));
            if out.matched_route != st.matched_route {
                if out.matched_route == step.0.matched_route {
                    assert(out.matched_route == Some(list[k]));
                } else {
                    let i = choose|i: int| k + 1 <= i < list.len() && out.matched_route == Some(#[trigger] list[i]);
                    assert(k <= i < list.len() && out.matched_route == Some(list[i]));
                }
            }
            if out.first_route != st.first_route {
                if out.first_route == step.0.first_route {
                    assert(out.first_route == Some(list[k]));
                } else {
                    let i = choose|i: int| k + 1 <= i < list.len() && out.first_route == Some(#[trigger] list[i]);
                    assert(k <= i < list.len() && out.first_route == Some(list[i]));
                }
            }
        }
    }
}

/// The routes of a class's list are in that class.
proof fn lemma_class_indices_in_class(routes: Seq<SgHttpRouteInst>, host: Option<Seq<char>>, c: int, n: int)
    requires
        n <= usize::MAX,
    ensures
        forall|i: int| 0 <= i < class_indices(routes, host, c, n).len() ==> in_class(routes, host, c, #[trigger] class_indices(routes, host, c, n)[i] as int),
    decreases n,
{
    if n > 0 {
        lemma_class_indices_in_class(routes, host, c, n - 1);
        let prev = class_indices(routes, host, c, n - 1);
        if in_class(routes, host, c, n - 1) {
            assert forall|i: int| 0 <= i < prev.push((n - 1) as usize).len() implies in_class(routes, host, c, #[trigger] prev.push((n - 1) as usize)[i] as int) by {
                if i < prev.len() {
                    assert(prev.push((n - 1) as usize)[i] == prev[i]);
                } else {
                    assert(((n - 1) as usize) as int == n - 1);
                }
            }
        }
    }
}

/// One class's search chooses a route of that class, when it starts
/// without a chosen route.
proof fn lemma_class_step_in_class(req: SgRequestParts, routes: Seq<SgHttpRouteInst>, c: int, st: RouteSearch)
    requires
        st.matched_route is None,
        routes.len() <= usize::MAX,
    ensures
        ({
            let list = class_indices(routes, req_host_text(req), c, routes.len() as int);
            class_step(req, routes, list, st).matched_route matches Some(r) ==> in_class(routes, req_host_text(req), c, r as int)
        }),
{
    let list = class_indices(routes, req_host_text(req), c, routes.len() as int);
    let st0 = RouteSearch { first_route: None, first_rule: None, ..st };
    lemma_route_scan_routes(req, routes, list, 0, st0);
    lemma_class_indices_in_class(routes, req_host_text(req), c, routes.len() as int);
    let st1 = route_scan(req, routes, list, 0, st0);
    if st1.matched_route is Some {
        let i = choose|i: int| 0 <= i < list.len() && st1.matched_route == Some(#[trigger] list[i]);
        assert(in_class(routes, req_host_text(req), c, list[i] as int));
    } else if st1.first_route is Some {
        let i = choose|i: int| 0 <= i < list.len() && st1.first_route == Some(#[trigger] list[i]);
        assert(in_class(routes, req_host_text(req), c, list[i] as int));
    }
}

/// Hostname priority: the route chosen for a request comes from the best
/// class that yields a route. It is an exact-hostname route when that class
/// yields one; else a wildcard route when that class yields one; else a
/// route without a hostname (or with `*`).
pub proof fn lemma_route_priority(req: SgRequestParts, routes: Seq<SgHttpRouteInst>)
    requires
        routes.len() <= usize::MAX,
    ensures
        ({
            let host = req_host_text(req);
            let n = routes.len() as int;
            let s1 = class_step(req, routes, class_indices(routes, host, 0, n), search_start());
            let s2 = class_step(req, routes, class_indices(routes, host, 1, n), s1);
            route_search(req, routes).matched_route matches Some(r) ==> {
                ||| s1.matched_route == Some(r) && in_class(routes, host, 0, r as int)
                ||| s1.matched_route is None && s2.matched_route == Some(r) && in_class(routes, host, 1, r as int)
                ||| s1.matched_route is None && s2.matched_route is None && in_class(routes, host, 2, r as int)
            }
        }),
{
    let host = req_host_text(req);
    let n = routes.len() as int;
    let s1 = class_step(req, routes, class_indices(routes, host, 0, n), search_start());
    lemma_class_step_in_class(req, routes, 0, search_start());
    if s1.matched_route is None {
        let s2 = class_step(req, routes, class_indices(routes, host, 1, n), s1);
        lemma_class_step_in_class(req, routes, 1, s1);
        if s2.matched_route is None {
            lemma_class_step_in_class(req, routes, 2, s2);
        }
    }
}

/// Once a route is chosen or a candidate found, looking at more routes of
/// the class keeps one; and a route without rules in the rest of the class
/// becomes a candidate if none is yet.
proof fn lemma_route_scan_finds(req: SgRequestParts, routes: Seq<SgHttpRouteInst>, list: Seq<usize>, k: int, st: RouteSearch)
    requires
        0 <= k,
        forall|i: int| 0 <= i < list.len() ==> #[trigger] list[i] < routes.len(),
        (st.first_route is Some || st.matched_route is Some)
            || exists|i: int| k <= i < list.len() && (#[trigger] routes[list[i] as int]).rules is None,
    ensures
        route_scan(req, routes, list, k, st).first_route is Some || route_scan(req, routes, list, k, st).matched_route is Some,
    decreases list.len() - k,
{
    if k < list.len() {
        let r = list[k] as int;
        let step = route_step(req, routes, r, st);
        if routes[r].rules is Some {
            lemma_rule_scan_keeps_routes(req, routes, r, 0, st);
        }
        if !step.1 {
            if !(st.first_route is Some || st.matched_route is Some) && routes[r].rules is Some {
                let i = choose|i: int| k <= i < list.len() && (#[trigger] routes[list[i] as int]).rules is None;
                assert(i != k);
            }
            lemma_route_scan_finds(req, routes, list, k + 1, step.0);
        }
    } else {
        if !(st.first_route is Some || st.matched_route is Some) {
            let i = choose|i: int| k <= i < list.len() && (#[trigger] routes[list[i] as int]).rules is None;
        }
    }
}

/// A route of class `c` below `n` is listed among the class's indices.
proof fn lemma_class_indices_contains(routes: Seq<SgHttpRouteInst>, host: Option<Seq<char>>, c: int, n: int, r: int)
    requires
        0 <= r < n,
        n <= usize::MAX,
        in_class(routes, host, c, r),
    ensures
        exists|i: int| 0 <= i < class_indices(routes, host, c, n).len() && #[trigger] class_indices(routes, host, c, n)[i] == r,
    decreases n,
{
    let l = class_indices(routes, host, c, n);
    if r == n - 1 {
        assert(l[l.len() - 1] == r);
    } else {
        lemma_class_indices_contains(routes, host, c, n - 1, r);
        let i = choose|i: int| 0 <= i < class_indices(routes, host, c, n - 1).len() && #[trigger] class_indices(routes, host, c, n - 1)[i] == r;
        if in_class(routes, host, c, n - 1) {
            assert(l[i] == r);
        }
    }
}

/// Hostname priority, stated directly: when a route with an exact hostname
/// of the request takes every request (it has no rules), the route chosen
/// is an exact-hostname route; wildcard routes and routes without a
/// hostname are not considered.
pub proof fn lemma_exact_hostname_wins(req: SgRequestParts, routes: Seq<SgHttpRouteInst>, r: int)
    requires
        routes.len() <= usize::MAX,
        0 <= r < routes.len(),
        in_class(routes, req_host_text(req), 0, r),
        routes[r].rules is None,
    ensures
        route_search(req, routes).matched_route matches Some(x) && in_class(routes, req_host_text(req), 0, x as int),
{
    let host = req_host_text(req);
    let n = routes.len() as int;
    let list = class_indices(routes, host, 0, n);
    lemma_class_indices_bounded(routes, host, 0, n);
    lemma_class_indices_contains(routes, host, 0, n, r);
    let i = choose|i: int| 0 <= i < list.len() && #[trigger] list[i] == r;
    assert(routes[list[i] as int].rules is None);
    let st0 = class_start(search_start());
    lemma_route_scan_finds(req, routes, list, 0, st0);
    lemma_route_priority(req, routes);
}

/// The listed indices are indices of routes.
pub proof fn lemma_class_indices_bounded(routes: Seq<SgHttpRouteInst>, host: Option<Seq<char>>, c: int, n: int)
    requires
        n <= routes.len() <= usize::MAX,
    ensures
        forall|k: int|
            0 <= k < class_indices(routes, host, c, n).len() ==> #[trigger] class_indices(routes, host, c, n)[k] < routes.len(),
    decreases n,
{
    if n > 0 {
        lemma_class_indices_bounded(routes, host, c, n - 1);
        let prev = class_indices(routes, host, c, n - 1);
        if in_class(routes, host, c, n - 1) {
            assert(class_indices(routes, host, c, n) == prev.push((n - 1) as usize));
            assert(((n - 1) as usize) as int == n - 1);
        }
    }
}

/// The class indices listed are increasing and below `n`.
proof fn lemma_class_indices_increasing(routes: Seq<SgHttpRouteInst>, host: Option<Seq<char>>, c: int, n: int)
    requires
        0 <= n <= usize::MAX,
    ensures
        forall|a: int, b: int| 0 <= a < b < class_indices(routes, host, c, n).len()
            ==> #[trigger] class_indices(routes, host, c, n)[a] < #[trigger] class_indices(routes, host, c, n)[b],
        forall|k: int| 0 <= k < class_indices(routes, host, c, n).len() ==> #[trigger] class_indices(routes, host, c, n)[k] < n,
    decreases n,
{
    if n > 0 {
        lemma_class_indices_increasing(routes, host, c, n - 1);
        let prev = class_indices(routes, host, c, n - 1);
        if in_class(routes, host, c, n - 1) {
            let l = prev.push((n - 1) as usize);
            assert(class_indices(routes, host, c, n) == l);
            assert forall|a: int, b: int| 0 <= a < b < l.len() implies #[trigger] l[a] < #[trigger] l[b] by {
                assert(l[a] == prev[a]);
                if b < prev.len() {
                    assert(l[b] == prev[b]);
                }
            }
            assert forall|k: int| 0 <= k < l.len() implies #[trigger] l[k] < n by {
                if k < prev.len() {
                    assert(l[k] == prev[k]);
                }
            }
        }
    }
}

/// The hostname classification as a filter: for every class, its list
/// holds exactly the routes below `n` of that class, in increasing order.
/// With a request host, class 0 holds the routes with that exact hostname,
/// class 2 those without hostnames or with `*`, and class 1 those a
/// wildcard hostname of which matches (see [`host_category`]); without a
/// host, only the routes without hostnames are listed, in class 2. A route
/// is in at most one class, since a route has one category.
pub proof fn lemma_class_indices_filter(routes: Seq<SgHttpRouteInst>, host: Option<Seq<char>>, c: int, n: int)
    requires
        0 <= n <= usize::MAX,
    ensures
        forall|k: int| 0 <= k < class_indices(routes, host, c, n).len() ==> {
            &&& #[trigger] class_indices(routes, host, c, n)[k] < n
            &&& in_class(routes, host, c, class_indices(routes, host, c, n)[k] as int)
        },
        forall|i: int| 0 <= i < n && #[trigger] in_class(routes, host, c, i)
            ==> exists|k: int| 0 <= k < class_indices(routes, host, c, n).len() && class_indices(routes, host, c, n)[k] == i,
        forall|a: int, b: int| 0 <= a < b < class_indices(routes, host, c, n).len()
            ==> #[trigger] class_indices(routes, host, c, n)[a] < #[trigger] class_indices(routes, host, c, n)[b],
{
    lemma_class_indices_increasing(routes, host, c, n);
    lemma_class_indices_in_class(routes, host, c, n);
    assert forall|i: int| 0 <= i < n && #[trigger] in_class(routes, host, c, i)
        implies exists|k: int| 0 <= k < class_indices(routes, host, c, n).len() && class_indices(routes, host, c, n)[k] == i by {
        lemma_class_indices_contains(routes, host, c, n, i);
    }
}

/* ------------------------------------------------------------------------
   Listeners and backends
   ------------------------------------------------------------------------ */

/// A listener accepts requests for `host` on `port`: its port is `port`,
/// and it has no hostname, or its hostname is `host`, or its hostname is
/// `*.` followed by a proper suffix of `host`.
pub open spec fn listener_accepts(l: SgListener, host: Seq<char>, port: u16) -> bool {
    &&& match l.hostname {
        None => true,
        Some(lh) => lh@ == host || (starts_with_spec(lh@, seq!['*', '.']) && ends_with_spec(host, lh@.skip(2))
            && host != lh@.skip(2)),
    }
    &&& l.port == port
}

/// Whether some listener accepts a request for `hostname` on `port`; a
/// request without a hostname is always accepted.
pub fn match_listeners_hostname_and_port(hostname: Option<&str>, port: u16, listeners: &[SgListener]) -> (r: bool)
    ensures
        r == match hostname {
            None => true,
            Some(h) => exists|i: int| 0 <= i < listeners@.len() && listener_accepts(#[trigger] listeners@[i], h@, port),
        },
{
    match hostname {
        None => true,
        Some(h) => {
            let host = chars_of(h);
            let wild: [char; 2] = ['*', '.'];
            assert(wild@ == seq!['*', '.']);
            let mut i: usize = 0;
            while i < listeners.len()
                invariant
                    i <= listeners.len(),
                    host@ == h@,
                    hostname == Some(h),
                    wild@ == seq!['*', '.'],
                    forall|j: int| 0 <= j < i ==> !listener_accepts(#[trigger] listeners@[j], h@, port),
                decreases listeners.len() - i,
            {
                let l = &listeners[i];
                let host_ok = match &l.hostname {
                    None => true,
                    Some(lh) => {
                        let lc = chars_of(lh.as_str());
                        if seq_eq(lc.as_slice(), host.as_slice()) {
                            true
                        } else if starts_with(lc.as_slice(), wild.as_slice()) {
                            let stripped = slice_chars(lc.as_slice(), 2, lc.len());
                            assert(stripped@ =~= lc@.skip(2));
                            ends_with(host.as_slice(), stripped.as_slice()) && !seq_eq(host.as_slice(), stripped.as_slice())
                        } else {
                            false
                        }
                    },
                };
                if host_ok && l.port == port {
                    assert(listener_accepts(listeners@[i as int], h@, port));
                    return true;
                }
                i = i + 1;
            }
            false
        },
    }
}

/// The weight a backend is picked with (a missing weight counts as zero).
pub open spec fn backend_weight(b: SgBackendInst) -> u16 {
    match b.weight {
        Some(w) => w,
        None => 0,
    }
}

/// The weights of the backends.
pub open spec fn backend_weights(backends: Seq<SgBackendInst>) -> Seq<u16> {
    Seq::new(backends.len(), |i: int| backend_weight(backends[i]))
}

/// Picks the backend a request goes to: none of an empty list, the only
/// one of a single-element list, and otherwise one drawn at random in
/// proportion to the weights, so never one of weight zero. With more than
/// one backend the weights must not all be zero and must sum to at most
/// `u16::MAX`.
pub fn choose_backend(backends: &[SgBackendInst]) -> (r: Option<usize>)
    requires
        backends@.len() > 1 ==> 0 < weight_sum(backend_weights(backends@), backends@.len() as int) <= u16::MAX,
    ensures
        backends@.len() == 0 ==> r is None,
        backends@.len() == 1 ==> r == Some(0usize),
        backends@.len() > 1 ==> (r matches Some(i) && i < backends@.len() && backend_weight(backends@[i as int]) > 0),
{
    if backends.len() == 0 {
        None
    } else if backends.len() == 1 {
        Some(0)
    } else {
        let mut weights: Vec<u16> = Vec::new();
        let mut i: usize = 0;
        while i < backends.len()
            invariant
                i <= backends.len(),
                weights@ == backend_weights(backends@).take(i as int),
            decreases backends.len() - i,
        {
            let w = match backends[i].weight {
                Some(w) => w,
                None => 0,
            };
            weights.push(w);
            assert(backend_weights(backends@).take(i + 1) =~= backend_weights(backends@).take(i as int).push(w));
            i = i + 1;
        }
        assert(weights@ =~= backend_weights(backends@));
        let k = weighted_index(&weights);
        Some(k)
    }
}

} // verus!
