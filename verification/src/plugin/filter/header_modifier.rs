//! A filter that sets and removes request or response headers.
use vstd::prelude::*;

use crate::error::SgError;
use crate::plugin::filter::{
    apply_removes, apply_sets, removed_name, sets_ok, values_after_sets, values_of, SgPluginFilterKind,
    SgRouteFilterContext,
};

verus! {

/// Which headers the modifier works on.
#[derive(Debug, Clone, Copy, PartialEq, Eq, Structural)]
pub enum SgFilerHeaderModifierKind {
    Request,
    Response,
}

impl Default for SgFilerHeaderModifierKind {
    fn default() -> (r: Self)
        ensures
            r == SgFilerHeaderModifierKind::Request,
    {
        SgFilerHeaderModifierKind::Request
    }
}

/// Sets the given headers (name and value) and removes the listed ones.
#[derive(Debug, Clone)]
pub struct SgFilerHeaderModifier {
    pub kind: SgFilerHeaderModifierKind,
    pub sets: Option<Vec<(String, String)>>,
    pub remove: Option<Vec<String>>,
}

/// The values under `n` after the modifier's sets and removals.
pub open spec fn modified_values(m: SgFilerHeaderModifier, old_hs: Seq<(String, Vec<u8>)>, n: Seq<char>) -> Seq<Seq<u8>> {
    let after_sets = match m.sets {
        Some(s) => values_after_sets(old_hs, s@, n),
        None => values_of(old_hs, n),
    };
    match m.remove {
        Some(r) => if removed_name(r@, n) {
            Seq::<Seq<u8>>::empty()
        } else {
            after_sets
        },
        None => after_sets,
    }
}

/// The modifier's sets are all valid.
pub open spec fn modifier_ok(m: SgFilerHeaderModifier) -> bool {
    match m.sets {
        Some(s) => sets_ok(s@),
        None => true,
    }
}

impl SgFilerHeaderModifier {
    /// The traffic the filter handles.
    pub fn kind(&self) -> (r: SgPluginFilterKind)
        ensures
            r == SgPluginFilterKind::Http,
    {
        SgPluginFilterKind::Http
    }

    /// Sets, then removes, headers of a header map.
    fn modify(&self, hs: &mut Vec<(String, Vec<u8>)>) -> (r: Result<(), SgError>)
        ensures
            r is Ok <==> modifier_ok(*self),
            r is Err ==> r == Err::<(), SgError>(SgError::FormatError),
            r is Ok ==> forall|n: Seq<char>| #[trigger] values_of(final(hs)@, n) == modified_values(*self, old(hs)@, n),
    {
        let ghost old_hs = hs@;
        match &self.sets {
            Some(sets) => {
                let r = apply_sets(hs, sets);
                if r.is_err() {
                    return Err(SgError::FormatError);
                }
            },
            None => {},
        }
        let ghost mid = hs@;
        match &self.remove {
            Some(remove) => {
                apply_removes(hs, remove);
                proof {
                    assert forall|n: Seq<char>| #[trigger] values_of(hs@, n) == modified_values(*self, old_hs, n) by {
                        assert(values_of(mid, n) == match self.sets {
                            Some(s) => values_after_sets(old_hs, s@, n),
                            None => values_of(old_hs, n),
                        });
                    }
                }
            },
            None => {},
        }
        Ok(())
    }

    /// On a request modifier, modifies the request headers; a name or value
    /// that is not valid is a `FormatError`. The filter always lets the
    /// request go on.
    pub fn req_filter(&self, ctx: &mut SgRouteFilterContext) -> (r: Result<bool, SgError>)
        ensures
            self.kind != SgFilerHeaderModifierKind::Request ==> r == Ok::<bool, SgError>(true) && *final(ctx) == *old(ctx),
            self.kind == SgFilerHeaderModifierKind::Request ==> {
                &&& (r is Ok <==> modifier_ok(*self))
                &&& r is Ok ==> r == Ok::<bool, SgError>(true)
                    && forall|n: Seq<char>| #[trigger] values_of(final(ctx).req_headers@, n) == modified_values(*self, old(ctx).req_headers@, n)
                &&& r is Err ==> r == Err::<bool, SgError>(SgError::FormatError)
            },
    {
        if self.kind != SgFilerHeaderModifierKind::Request {
            return Ok(true);
        }
        match self.modify(&mut ctx.req_headers) {
            Ok(()) => Ok(true),
            Err(e) => Err(e),
        }
    }

    /// On a response modifier, modifies the response headers, if there is a
    /// response; a name or value that is not valid is a `FormatError`.
    pub fn resp_filter(&self, ctx: &mut SgRouteFilterContext) -> (r: Result<bool, SgError>)
        ensures
            (self.kind != SgFilerHeaderModifierKind::Response || old(ctx).resp_headers is None) ==> r == Ok::<bool, SgError>(true) && *final(ctx) == *old(ctx),
            (self.kind == SgFilerHeaderModifierKind::Response && old(ctx).resp_headers is Some) ==> {
                &&& (r is Ok <==> modifier_ok(*self))
                &&& r is Ok ==> r == Ok::<bool, SgError>(true) && final(ctx).resp_headers is Some
                    && forall|n: Seq<char>| #[trigger] values_of(final(ctx).resp_headers->0@, n) == modified_values(*self, old(ctx).resp_headers->0@, n)
                &&& r is Err ==> r == Err::<bool, SgError>(SgError::FormatError)
            },
    {
        if self.kind != SgFilerHeaderModifierKind::Response {
            return Ok(true);
        }
        match &mut ctx.resp_headers {
            Some(hs) => match self.modify(hs) {
                Ok(()) => Ok(true),
                Err(e) => Err(e),
            },
            None => Ok(true),
        }
    }
}

} // verus!
