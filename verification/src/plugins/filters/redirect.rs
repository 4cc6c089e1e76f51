//! The redirect filter: sends the request on to another host, scheme, port
//! or path, and may set the status of the answer.
use vstd::prelude::*;

use crate::error::SgError;
use crate::plugin::filter::redirect::status_code_accepted;
use crate::instance::SgHttpRouteMatchInst;
use crate::plugins::context::{same_but_messages, SgRouteFilterRequestAction, SgRoutePluginContext};
use crate::plugins::filters::{http_common_modify_path, modify_path_ready, modify_path_spec, SgHttpPathModifier, SgPluginFilterAccept, SgPluginFilterKind};
use crate::urls::{http_uri_text, http_uri_text_spec, url_set_host, url_set_host_spec, url_set_port, url_set_port_spec, url_set_scheme, url_set_scheme_spec};

verus! {

/// The code the redirect filter is configured under.
pub const CODE: &'static str = "redirect";

/// Where to redirect a request, and the status to answer with.
#[derive(Debug, Clone, Default)]
pub struct SgFilterRedirect {
    pub scheme: Option<String>,
    pub hostname: Option<String>,
    pub path: Option<SgHttpPathModifier>,
    pub port: Option<u16>,
    pub status_code: Option<u16>,
}

/// The URI text after one change made through `url`: `None` when the change
/// or the reading of the result as an `http::Uri` fails.
pub open spec fn uri_after(changed: Option<Seq<char>>) -> Option<Seq<char>> {
    match changed {
        Some(x) => http_uri_text_spec(x),
        None => None,
    }
}

/// The URI after the host, scheme and port changes, in that order; `None`
/// when one of them fails.
pub open spec fn redirect_base(u: Seq<char>, rd: SgFilterRedirect) -> Option<Seq<char>> {
    let u1 = match rd.hostname {
        Some(h) => uri_after(url_set_host_spec(u, h@)),
        None => Some(u),
    };
    let u2 = match (u1, rd.scheme) {
        (Some(x), Some(s)) => uri_after(url_set_scheme_spec(x, s@)),
        _ => u1,
    };
    match (u2, rd.port) {
        (Some(x), Some(p)) => uri_after(url_set_port_spec(x, p)),
        _ => u2,
    }
}

/// The URI the request is redirected to, or the error that stops it: a
/// refused host, scheme or port is a `FormatError`; then the path is
/// rewritten (see [`modify_path_spec`]).
pub open spec fn redirect_target(u: Seq<char>, rd: SgFilterRedirect, matched: Option<SgHttpRouteMatchInst>) -> Result<Seq<char>, SgError> {
    match redirect_base(u, rd) {
        None => Err(SgError::FormatError),
        Some(b) => match modify_path_spec(b, rd.path, matched) {
            Err(e) => Err(e),
            Ok(None) => Ok(b),
            Ok(Some(t)) => Ok(t),
        },
    }
}

/// Whether the filter changes the URI at all.
pub open spec fn redirect_changes_uri(rd: SgFilterRedirect) -> bool {
    rd.hostname is Some || rd.scheme is Some || rd.port is Some || rd.path is Some
}

/// One change of the URI made through `url` and read back through `http`.
fn changed_uri(changed: Option<String>) -> (r: Result<String, SgError>)
    ensures
        match uri_after(match changed {
            Some(c) => Some(c@),
            None => None,
        }) {
            Some(t) => r matches Ok(s) && s@ == t,
            None => r == Err::<String, SgError>(SgError::FormatError),
        },
{
    match changed {
        Some(c) => match http_uri_text(c.as_str()) {
            Some(t) => Ok(t),
            None => Err(SgError::FormatError),
        },
        None => Err(SgError::FormatError),
    }
}

impl SgFilterRedirect {
    /// The redirect filter handles HTTP requests, and no error responses.
    pub fn accept(&self) -> (r: SgPluginFilterAccept)
        ensures
            r.kind@ == seq![SgPluginFilterKind::Http],
            !r.accept_error_response,
    {
        let mut kind: Vec<SgPluginFilterKind> = Vec::new();
        kind.push(SgPluginFilterKind::Http);
        SgPluginFilterAccept { kind, accept_error_response: false }
    }

    /// Points the request at the redirect target (see [`redirect_target`])
    /// and asks for a redirect; the filter chain goes on.
    pub fn req_filter(&self, _id: &str, ctx: SgRoutePluginContext) -> (r: Result<(bool, SgRoutePluginContext), SgError>)
        requires
            modify_path_ready(self.path, ctx.rule_match_of()),
        ensures
            match redirect_target(ctx.request_of().uri.current()@, *self, ctx.rule_match_of()) {
                Err(e) => r matches Err(x) && x == e,
                Ok(t) => r matches Ok((cont, c)) && {
                    &&& cont
                    &&& c.action_of() == SgRouteFilterRequestAction::Redirect
                    &&& c.chosen_backend_of() is None
                    &&& c.request_of().uri.current()@ == t
                    &&& c.request_of().uri.raw_value() == ctx.request_of().uri.raw_value()
                    &&& (!redirect_changes_uri(*self) ==> c.request_of().uri == ctx.request_of().uri)
                    &&& c.request_of().method == ctx.request_of().method
                    &&& c.request_of().version == ctx.request_of().version
                    &&& c.request_of().headers == ctx.request_of().headers
                    &&& c.request_of().body == ctx.request_of().body
                    &&& c.request_of().remote_addr == ctx.request_of().remote_addr
                    &&& c.response_of() == ctx.response_of()
                    &&& c.wf() == ctx.wf()
                    &&& c.exts() == ctx.exts()
                    &&& c.chosen_rule_of() == ctx.chosen_rule_of()
                    &&& c.kind_of() == ctx.kind_of()
                },
            },
    {
        let mut ctx = ctx;
        if let Some(hostname) = &self.hostname {
            let t = changed_uri(url_set_host(ctx.get_request().get_uri().as_str(), hostname.as_str()))?;
            ctx.request_mut().set_uri(t);
        }
        if let Some(scheme) = &self.scheme {
            let t = changed_uri(url_set_scheme(ctx.get_request().get_uri().as_str(), scheme.as_str()))?;
            ctx.request_mut().set_uri(t);
        }
        if let Some(port) = self.port {
            let t = changed_uri(url_set_port(ctx.get_request().get_uri().as_str(), port))?;
            ctx.request_mut().set_uri(t);
        }
        let modified = http_common_modify_path(ctx.get_request().get_uri().as_str(), &self.path, ctx.get_rule_matched())?;
        if let Some(new_url) = modified {
            ctx.request_mut().set_uri(new_url);
        }
        ctx.set_action(SgRouteFilterRequestAction::Redirect);
        Ok((true, ctx))
    }

    /// Sets the configured status on the response. A status outside 100 to
    /// 999 (what `http::StatusCode::from_u16` refuses) is a `FormatError`.
    pub fn resp_filter(&self, _id: &str, ctx: SgRoutePluginContext) -> (r: Result<(bool, SgRoutePluginContext), SgError>)
        ensures
            match self.status_code {
                Some(s) => if 100 <= s <= 999 {
                    r matches Ok((cont, c)) && cont
                        && c.response_of().status_code.modified_value() == Some(s)
                        && c.response_of().status_code.raw_value() == ctx.response_of().status_code.raw_value()
                        && c.response_of().headers == ctx.response_of().headers
                        && c.response_of().body == ctx.response_of().body
                        && c.response_of().resp_err == ctx.response_of().resp_err
                        && c.request_of() == ctx.request_of()
                        && same_but_messages(c, ctx)
                        && c.action_of() == ctx.action_of()
                } else {
                    r == Err::<(bool, SgRoutePluginContext), SgError>(SgError::FormatError)
                },
                None => r == Ok::<(bool, SgRoutePluginContext), SgError>((true, ctx)),
            },
    {
        let mut ctx = ctx;
        if let Some(status_code) = self.status_code {
            if !status_code_accepted(status_code) {
                return Err(SgError::FormatError);
            }
            ctx.response_mut().set_status_code(status_code);
        }
        Ok((true, ctx))
    }
}

} // verus!
