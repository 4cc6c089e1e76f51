//! The inject filter: a request (or response) is first sent to another
//! service, whose answer takes its place; the original method and URL
//! travel in two headers.
use vstd::prelude::*;

use crate::error::SgError;
use crate::functions::http_route::{header_get, header_lookup, header_text, header_value_text, valid_header_name};
use crate::functions::http_route::route_init::http_method_parses;
use crate::plugin::filter::{remove_named, values_of};
use crate::plugins::filters::{SgPluginFilterAccept, SgPluginFilterKind};
use crate::urls::{http_uri_text, http_uri_text_spec};

verus! {

/// The code the inject filter is configured under.
pub const CODE: &'static str = "inject";

/// The definition of the inject filter: the filter configured under its code.
#[derive(Debug, Clone, Copy)]
pub struct SgFilterInjectDef;

impl SgFilterInjectDef {
    /// The code of the filter.
    pub fn get_code(&self) -> (r: &'static str)
        ensures
            r@ == CODE@,
    {
        CODE
    }
}


/// The header that carries the request's real method.
pub const SG_INJECT_REAL_METHOD: &'static str = "Sg_Inject_Real_Method";
/// The header that carries the request's real URL.
pub const SG_INJECT_REAL_URL: &'static str = "Sg_Inject_Real_Url";

/// The inject filter's settings.
#[derive(Debug, Clone)]
pub struct SgFilterInject {
    pub req_inject_url: Option<String>,
    pub req_timeout_ms: Option<u64>,
    pub resp_inject_url: Option<String>,
    pub resp_timeout_ms: Option<u64>,
}

impl Default for SgFilterInject {
    fn default() -> (r: Self)
        ensures
            r.req_inject_url is None,
            r.req_timeout_ms is None,
            r.resp_inject_url is None,
            r.resp_timeout_ms is None,
    {
        SgFilterInject { req_inject_url: None, req_timeout_ms: None, resp_inject_url: None, resp_timeout_ms: None }
    }
}

/// What the injected service's answer says of the request: the method in
/// its method header (kept when absent; an error when not a method) and
/// the URL in its URL header (kept when absent; an error when not a URI).
pub open spec fn injected_target(real_method: Seq<char>, real_url: Seq<char>, headers: Seq<(String, Vec<u8>)>) -> Result<(Seq<char>, Seq<char>), SgError> {
    let m = match header_lookup(headers, SG_INJECT_REAL_METHOD@) {
        None => Some(real_method),
        Some(v) => match header_value_text(v) {
            Some(t) => if valid_header_name(t) { Some(t) } else { None },
            None => None,
        },
    };
    let u = match header_lookup(headers, SG_INJECT_REAL_URL@) {
        None => Some(real_url),
        Some(v) => match header_value_text(v) {
            Some(t) => http_uri_text_spec(t),
            None => None,
        },
    };
    match (m, u) {
        (Some(m), Some(u)) => Ok((m, u)),
        _ => Err(SgError::BadRequest),
    }
}

impl SgFilterInject {
    /// The filter runs on HTTP requests, not on error responses.
    pub fn accept(&self) -> (r: SgPluginFilterAccept)
        ensures
            r.kind@ == seq![SgPluginFilterKind::Http],
            !r.accept_error_response,
    {
        let mut kind: Vec<SgPluginFilterKind> = Vec::new();
        kind.push(SgPluginFilterKind::Http);
        SgPluginFilterAccept { kind, accept_error_response: false }
    }
}

/// Reads the request's method and URL from the injected service's answer
/// headers (see [`injected_target`]) and takes the two headers out of them;
/// a value that is not a method or a URI is a `BadRequest`.
pub fn take_injected_target(real_method: &str, real_url: &str, headers: &mut Vec<(String, Vec<u8>)>) -> (r: Result<(String, String), SgError>)
    ensures
        match injected_target(real_method@, real_url@, old(headers)@) {
            Ok((m, u)) => r matches Ok((rm, ru)) && rm@ == m && ru@ == u,
            Err(e) => r == Err::<(String, String), SgError>(e),
        },
        r is Ok ==> {
            &&& values_of(final(headers)@, crate::text::ascii_lower_seq(SG_INJECT_REAL_METHOD@)) == Seq::<Seq<u8>>::empty()
            &&& values_of(final(headers)@, crate::text::ascii_lower_seq(SG_INJECT_REAL_URL@)) == Seq::<Seq<u8>>::empty()
        },
{
    let method = match header_get(headers, SG_INJECT_REAL_METHOD) {
        None => real_method.to_string(),
        Some(v) => match header_text(v) {
            Some(t) => {
                if http_method_parses(t.as_str()) {
                    t
                } else {
                    return Err(SgError::BadRequest);
                }
            },
            None => {
                return Err(SgError::BadRequest);
            },
        },
    };
    let url = match header_get(headers, SG_INJECT_REAL_URL) {
        None => real_url.to_string(),
        Some(v) => match header_text(v) {
            Some(t) => match http_uri_text(t.as_str()) {
                Some(u) => u,
                None => {
                    return Err(SgError::BadRequest);
                },
            },
            None => {
                return Err(SgError::BadRequest);
            },
        },
    };
    let lm = crate::text::ascii_lower_string(SG_INJECT_REAL_METHOD);
    let lu = crate::text::ascii_lower_string(SG_INJECT_REAL_URL);
    remove_named(headers, lm.as_str());
    remove_named(headers, lu.as_str());
    proof {
        let m = crate::text::ascii_lower_seq(SG_INJECT_REAL_METHOD@);
        let u = crate::text::ascii_lower_seq(SG_INJECT_REAL_URL@);
        reveal_strlit("Sg_Inject_Real_Method");
        reveal_strlit("Sg_Inject_Real_Url");
        assert(m != u) by {
            assert(m.len() != u.len());
        }
    }
    Ok((method, url))
}

} // verus!
