//! The header modifier filter: sets and removes header fields of the request
//! or of the response.
use vstd::prelude::*;

use crate::error::SgError;
use crate::plugin::filter::{names_ok, removed_name, sets_ok, values_after_sets, values_of};
use crate::plugins::context::{same_but_messages, SgRoutePluginContext};
use crate::plugins::filters::{SgPluginFilterAccept, SgPluginFilterKind};

verus! {

/// The code the header modifier filter is configured under.
pub const CODE: &'static str = "header_modifier";

/// Whether the filter works on the request or on the response.
#[derive(Debug, Clone, Copy, PartialEq, Eq, Structural)]
pub enum SgFilterHeaderModifierKind {
    Request,
    Response,
}

impl Default for SgFilterHeaderModifierKind {
    fn default() -> (r: Self)
        ensures
            r == SgFilterHeaderModifierKind::Request,
    {
        SgFilterHeaderModifierKind::Request
    }
}

/// The headers to set (name and value, applied in this order) and to
/// remove.
#[derive(Debug, Clone, Default)]
pub struct SgFilterHeaderModifier {
    pub kind: SgFilterHeaderModifierKind,
    pub sets: Option<Vec<(String, String)>>,
    pub remove: Option<Vec<String>>,
}

/// The sets, none when absent.
pub open spec fn sets_of(m: SgFilterHeaderModifier) -> Seq<(String, String)> {
    match m.sets {
        Some(s) => s@,
        None => Seq::empty(),
    }
}

/// The names to remove, none when absent.
pub open spec fn removes_of(m: SgFilterHeaderModifier) -> Seq<String> {
    match m.remove {
        Some(s) => s@,
        None => Seq::empty(),
    }
}

/// The values under `n` after the sets and then the removals.
pub open spec fn modified_header_values(old_hs: Seq<(String, Vec<u8>)>, m: SgFilterHeaderModifier, n: Seq<char>) -> Seq<Seq<u8>> {
    if removed_name(removes_of(m), n) {
        Seq::empty()
    } else {
        values_after_sets(old_hs, sets_of(m), n)
    }
}

/// Whether the removals apply to the response: its header map is modified
/// already, or becomes so through the sets.
pub open spec fn response_removes_apply(ctx: SgRoutePluginContext, m: SgFilterHeaderModifier) -> bool {
    ctx.response_of().headers.modified_value() is Some || sets_of(m).len() > 0
}

impl SgFilterHeaderModifier {
    /// The header modifier handles HTTP requests, and no error responses.
    pub fn accept(&self) -> (r: SgPluginFilterAccept)
        ensures
            r.kind@ == seq![SgPluginFilterKind::Http],
            !r.accept_error_response,
    {
        let mut kind: Vec<SgPluginFilterKind> = Vec::new();
        kind.push(SgPluginFilterKind::Http);
        SgPluginFilterAccept { kind, accept_error_response: false }
    }

    /// For a request modifier, sets and then removes the request headers; a
    /// name or value that `http` does not accept is a `FormatError`. A
    /// response modifier leaves the context alone. The filter chain goes on.
    pub fn req_filter(&self, _id: &str, ctx: SgRoutePluginContext) -> (r: Result<(bool, SgRoutePluginContext), SgError>)
        ensures
            self.kind != SgFilterHeaderModifierKind::Request ==> r == Ok::<(bool, SgRoutePluginContext), SgError>((true, ctx)),
            self.kind == SgFilterHeaderModifierKind::Request ==> {
                &&& (r is Ok <==> sets_ok(sets_of(*self)) && names_ok(removes_of(*self)))
                &&& (r is Err ==> r == Err::<(bool, SgRoutePluginContext), SgError>(SgError::FormatError))
                &&& (r matches Ok((cont, c)) ==> {
                    &&& cont
                    &&& forall|n: Seq<char>| #[trigger] values_of(c.request_of().headers.current()@, n)
                        == modified_header_values(ctx.request_of().headers.current()@, *self, n)
                    &&& c.request_of().headers.raw_value() == ctx.request_of().headers.raw_value()
                    &&& c.request_of().method == ctx.request_of().method
                    &&& c.request_of().uri == ctx.request_of().uri
                    &&& c.request_of().version == ctx.request_of().version
                    &&& c.request_of().body == ctx.request_of().body
                    &&& c.request_of().remote_addr == ctx.request_of().remote_addr
                    &&& c.response_of() == ctx.response_of()
                    &&& c.action_of() == ctx.action_of()
                    &&& same_but_messages(c, ctx)
                })
            },
    {
        if self.kind != SgFilterHeaderModifierKind::Request {
            return Ok((true, ctx));
        }
        let mut ctx = ctx;
        let ghost h0 = ctx.request_of().headers.current()@;
        if let Some(set) = &self.sets {
            ctx.request_mut().set_headers_each(set)?;
        }
        let ghost h1 = ctx.request_of().headers.current()@;
        if let Some(remove) = &self.remove {
            ctx.request_mut().remove_headers_each(remove)?;
        }
        proof {
            assert forall|n: Seq<char>| #[trigger] values_of(ctx.request_of().headers.current()@, n)
                == modified_header_values(h0, *self, n) by {
                assert(values_of(h1, n) == values_after_sets(h0, sets_of(*self), n));
            }
        }
        Ok((true, ctx))
    }

    /// For a response modifier, sets and then removes the response headers;
    /// a name or value that `http` does not accept is a `FormatError`. The
    /// removals only act on a header map that is modified, once the sets
    /// are done. A request modifier leaves the context alone. The filter
    /// chain goes on.
    pub fn resp_filter(&self, _id: &str, ctx: SgRoutePluginContext) -> (r: Result<(bool, SgRoutePluginContext), SgError>)
        ensures
            self.kind != SgFilterHeaderModifierKind::Response ==> r == Ok::<(bool, SgRoutePluginContext), SgError>((true, ctx)),
            self.kind == SgFilterHeaderModifierKind::Response ==> {
                &&& (r is Ok <==> sets_ok(sets_of(*self)) && (names_ok(removes_of(*self)) || !response_removes_apply(ctx, *self)))
                &&& (r is Err ==> r == Err::<(bool, SgRoutePluginContext), SgError>(SgError::FormatError))
                &&& (r matches Ok((cont, c)) ==> {
                    &&& cont
                    &&& forall|n: Seq<char>| #[trigger] values_of(c.response_of().headers.current()@, n)
                        == if response_removes_apply(ctx, *self) {
                            modified_header_values(ctx.response_of().headers.current()@, *self, n)
                        } else {
                            values_of(ctx.response_of().headers.current()@, n)
                        }
                    &&& c.response_of().headers.raw_value() == ctx.response_of().headers.raw_value()
                    &&& c.response_of().status_code == ctx.response_of().status_code
                    &&& c.response_of().body == ctx.response_of().body
                    &&& c.response_of().resp_err == ctx.response_of().resp_err
                    &&& c.request_of() == ctx.request_of()
                    &&& c.action_of() == ctx.action_of()
                    &&& same_but_messages(c, ctx)
                })
            },
    {
        if self.kind != SgFilterHeaderModifierKind::Response {
            return Ok((true, ctx));
        }
        let mut ctx = ctx;
        let ghost h0 = ctx.response_of().headers.current()@;
        if let Some(set) = &self.sets {
            ctx.response_mut().set_headers_each(set)?;
        }
        let ghost h1 = ctx.response_of().headers.current()@;
        proof {
            assert forall|n: Seq<char>| #[trigger] values_of(h1, n) == values_after_sets(h0, sets_of(*self), n) by {
                if self.sets is None {
                    assert(crate::plugin::filter::set_value_for(sets_of(*self), n) is None);
                }
            }
        }
        if let Some(remove) = &self.remove {
            ctx.response_mut().remove_headers_each(remove)?;
        }
        proof {
            if !response_removes_apply(ctx, *self) {
                assert forall|n: Seq<char>| #[trigger] values_of(ctx.response_of().headers.current()@, n) == values_of(h0, n) by {
                    assert(values_of(h1, n) == values_after_sets(h0, sets_of(*self), n));
                }
            } else {
                assert forall|n: Seq<char>| #[trigger] values_of(ctx.response_of().headers.current()@, n)
                    == modified_header_values(h0, *self, n) by {
                    assert(values_of(h1, n) == values_after_sets(h0, sets_of(*self), n));
                }
            }
        }
        Ok((true, ctx))
    }
}

} // verus!
