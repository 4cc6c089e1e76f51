//! A filter that replaces the request's method, headers or URI, or the
//! response's status.
use vstd::prelude::*;

use crate::error::SgError;
use crate::functions::http_route::route_init::http_method_parses;
use crate::functions::http_route::valid_header_name;
use crate::plugin::filter::{apply_sets, sets_ok, values_after_sets, values_of, SgPluginFilterKind, SgRouteFilterContext};
use crate::urls::{http_uri_text, http_uri_text_spec};

verus! {

/// What the redirect replaces; each part only when given.
#[derive(Debug, Clone)]
pub struct SgFilerRedirect {
    pub method: Option<String>,
    pub headers: Option<Vec<(String, String)>>,
    pub uri: Option<String>,
    pub status_code: Option<u16>,
}

/// `http::StatusCode::from_u16`: the contract claims that a code is accepted
/// exactly when it lies from 100 to 999, as the crate's source shows.
#[verifier::external_body]
pub(crate) fn status_code_accepted(code: u16) -> (r: bool)
    ensures
        r == (100 <= code && code <= 999),
{
    http::StatusCode::from_u16(code).is_ok()
}

/// The request parts the redirect sets are all valid: a method `http`
/// accepts, valid headers and a valid URI.
pub open spec fn redirect_ok(rd: SgFilerRedirect) -> bool {
    &&& match rd.method {
        Some(m) => valid_header_name(m@),
        None => true,
    }
    &&& match rd.headers {
        Some(h) => sets_ok(h@),
        None => true,
    }
    &&& match rd.uri {
        Some(u) => http_uri_text_spec(u@) is Some,
        None => true,
    }
}

impl SgFilerRedirect {
    /// The traffic the filter handles.
    pub fn kind(&self) -> (r: SgPluginFilterKind)
        ensures
            r == SgPluginFilterKind::Http,
    {
        SgPluginFilterKind::Http
    }

    /// Replaces the request's method, sets its headers and replaces its URI
    /// (as the `http` crate writes it), each when given; anything `http`
    /// does not accept is a `FormatError`.
    pub fn req_filter(&self, ctx: &mut SgRouteFilterContext) -> (r: Result<bool, SgError>)
        ensures
            r is Ok <==> redirect_ok(*self),
            r is Err ==> r == Err::<bool, SgError>(SgError::FormatError),
            r is Ok ==> {
                &&& r == Ok::<bool, SgError>(true)
                &&& final(ctx).method@ == match self.method {
                    Some(m) => m@,
                    None => old(ctx).method@,
                }
                &&& final(ctx).uri@ == match self.uri {
                    Some(u) => http_uri_text_spec(u@)->0,
                    None => old(ctx).uri@,
                }
                &&& forall|n: Seq<char>| #[trigger] values_of(final(ctx).req_headers@, n) == match self.headers {
                    Some(h) => values_after_sets(old(ctx).req_headers@, h@, n),
                    None => values_of(old(ctx).req_headers@, n),
                }
            },
    {
        match &self.method {
            Some(m) => {
                if !http_method_parses(m.as_str()) {
                    return Err(SgError::FormatError);
                }
                ctx.method = m.clone();
            },
            None => {},
        }
        match &self.headers {
            Some(h) => {
                let r = apply_sets(&mut ctx.req_headers, h);
                if r.is_err() {
                    return Err(SgError::FormatError);
                }
            },
            None => {},
        }
        match &self.uri {
            Some(u) => match http_uri_text(u.as_str()) {
                Some(t) => {
                    ctx.uri = t;
                },
                None => {
                    return Err(SgError::FormatError);
                },
            },
            None => {},
        }
        Ok(true)
    }

    /// Sets the response status, when given; a code outside 100 to 999 is a
    /// `FormatError`.
    pub fn resp_filter(&self, ctx: &mut SgRouteFilterContext) -> (r: Result<bool, SgError>)
        ensures
            match self.status_code {
                None => r == Ok::<bool, SgError>(true) && *final(ctx) == *old(ctx),
                Some(c) => if 100 <= c && c <= 999 {
                    r == Ok::<bool, SgError>(true) && final(ctx).resp_status_code == Some(c)
                        && final(ctx).req_headers == old(ctx).req_headers
                } else {
                    r == Err::<bool, SgError>(SgError::FormatError)
                },
            },
    {
        match self.status_code {
            Some(c) => {
                if status_code_accepted(c) {
                    ctx.resp_status_code = Some(c);
                    Ok(true)
                } else {
                    Err(SgError::FormatError)
                }
            },
            None => Ok(true),
        }
    }
}

} // verus!
