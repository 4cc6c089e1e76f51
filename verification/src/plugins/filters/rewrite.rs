//! The rewrite filter: changes the host and the path of the request before
//! it goes to the backend.
use vstd::prelude::*;

use crate::error::SgError;
use crate::instance::SgHttpRouteMatchInst;
use crate::plugins::context::{same_but_messages, SgRoutePluginContext};
use crate::plugins::filters::redirect::uri_after;
use crate::plugins::filters::{http_common_modify_path, modify_path_ready, modify_path_spec, SgHttpPathModifier, SgPluginFilterAccept, SgPluginFilterKind};
use crate::urls::{http_uri_text, url_set_host, url_set_host_spec};

verus! {

/// The code the rewrite filter is configured under.
pub const CODE: &'static str = "rewrite";

/// The new host and path of a request.
#[derive(Debug, Clone, Default)]
pub struct SgFilterRewrite {
    pub hostname: Option<String>,
    pub path: Option<SgHttpPathModifier>,
}

/// The rewritten URI, or the error that stops the rewrite: a refused host is
/// a `FormatError`; then the path is rewritten (see [`modify_path_spec`]).
pub open spec fn rewrite_target(u: Seq<char>, rw: SgFilterRewrite, matched: Option<SgHttpRouteMatchInst>) -> Result<Seq<char>, SgError> {
    let base = match rw.hostname {
        Some(h) => uri_after(url_set_host_spec(u, h@)),
        None => Some(u),
    };
    match base {
        None => Err(SgError::FormatError),
        Some(b) => match modify_path_spec(b, rw.path, matched) {
            Err(e) => Err(e),
            Ok(None) => Ok(b),
            Ok(Some(t)) => Ok(t),
        },
    }
}

impl SgFilterRewrite {
    /// The rewrite filter handles HTTP and WebSocket requests, and no error
    /// responses.
    pub fn accept(&self) -> (r: SgPluginFilterAccept)
        ensures
            r.kind@ == seq![SgPluginFilterKind::Http, SgPluginFilterKind::Ws],
            !r.accept_error_response,
    {
        let mut kind: Vec<SgPluginFilterKind> = Vec::new();
        kind.push(SgPluginFilterKind::Http);
        kind.push(SgPluginFilterKind::Ws);
        SgPluginFilterAccept { kind, accept_error_response: false }
    }

    /// Rewrites the request URI (see [`rewrite_target`]); the filter chain
    /// goes on.
    pub fn req_filter(&self, _id: &str, ctx: SgRoutePluginContext) -> (r: Result<(bool, SgRoutePluginContext), SgError>)
        requires
            modify_path_ready(self.path, ctx.rule_match_of()),
        ensures
            match rewrite_target(ctx.request_of().uri.current()@, *self, ctx.rule_match_of()) {
                Err(e) => r matches Err(x) && x == e,
                Ok(t) => r matches Ok((cont, c)) && {
                    &&& cont
                    &&& c.request_of().uri.current()@ == t
                    &&& c.request_of().uri.raw_value() == ctx.request_of().uri.raw_value()
                    &&& (self.hostname is None && self.path is None ==> c.request_of().uri == ctx.request_of().uri)
                    &&& c.request_of().method == ctx.request_of().method
                    &&& c.request_of().version == ctx.request_of().version
                    &&& c.request_of().headers == ctx.request_of().headers
                    &&& c.request_of().body == ctx.request_of().body
                    &&& c.request_of().remote_addr == ctx.request_of().remote_addr
                    &&& c.response_of() == ctx.response_of()
                    &&& c.action_of() == ctx.action_of()
                    &&& same_but_messages(c, ctx)
                },
            },
    {
        let mut ctx = ctx;
        if let Some(hostname) = &self.hostname {
            let changed = url_set_host(ctx.get_request().get_uri().as_str(), hostname.as_str());
            let t = match changed {
                Some(c) => match http_uri_text(c.as_str()) {
                    Some(t) => t,
                    None => {
                        return Err(SgError::FormatError);
                    },
                },
                None => {
                    return Err(SgError::FormatError);
                },
            };
            ctx.request_mut().set_uri(t);
        }
        let modified = http_common_modify_path(ctx.get_request().get_uri().as_str(), &self.path, ctx.get_rule_matched())?;
        if let Some(new_url) = modified {
            ctx.request_mut().set_uri(new_url);
        }
        Ok((true, ctx))
    }

    /// The rewrite filter leaves responses alone.
    pub fn resp_filter(&self, _id: &str, ctx: SgRoutePluginContext) -> (r: Result<(bool, SgRoutePluginContext), SgError>)
        ensures
            r == Ok::<(bool, SgRoutePluginContext), SgError>((true, ctx)),
    {
        Ok((true, ctx))
    }
}

} // verus!
