//! A layer that checks each request before it reaches the inner service.
use vstd::prelude::*;

verus! {

/// Wraps services with the check `C`.
#[derive(Debug, Clone)]
pub struct CheckLayer<C> {
    pub check: C,
}

impl<C> CheckLayer<C> {
    pub fn new(check: C) -> (r: Self)
        ensures
            r.check == check,
    {
        CheckLayer { check }
    }
}

/// A service `S` guarded by the check `C`; `M` is the marker the check reads
/// from the request.
#[derive(Debug)]
pub struct CheckService<C, S, M> {
    pub check: C,
    pub service: S,
    pub marker: std::marker::PhantomData<M>,
}

impl<C, S, M> CheckService<C, S, M> {
    pub fn new(check: C, service: S) -> (r: Self)
        ensures
            r.check == check,
            r.service == service,
    {
        CheckService { check, service, marker: std::marker::PhantomData }
    }
}

/// What the check layer does with a request.
#[derive(Debug, Clone, Copy, PartialEq, Eq, Structural)]
pub enum CheckOutcome {
    /// The request carries no marker: by default `401 Unauthorized`.
    Missing,
    /// The check refused the marker: by default `403 Forbidden`.
    Forbidden,
    /// The check passed: the request goes on to the inner service.
    Pass,
}

impl<C, S, M> CheckService<C, S, M> {
    /// Decides what to do with a request, given whether its marker was
    /// found and, for a marker found, whether the check passed it.
    pub fn decide(marker_found: bool, passed: bool) -> (r: CheckOutcome)
        ensures
            !marker_found ==> r == CheckOutcome::Missing,
            marker_found && !passed ==> r == CheckOutcome::Forbidden,
            marker_found && passed ==> r == CheckOutcome::Pass,
    {
        if !marker_found {
            CheckOutcome::Missing
        } else if passed {
            CheckOutcome::Pass
        } else {
            CheckOutcome::Forbidden
        }
    }
}

impl CheckOutcome {
    /// The status of the default answer: `401` for a missing marker, `403`
    /// for a refused one, none for a request that passes.
    pub fn default_status(&self) -> (r: Option<u16>)
        ensures
            *self == CheckOutcome::Missing ==> r == Some(401u16),
            *self == CheckOutcome::Forbidden ==> r == Some(403u16),
            *self == CheckOutcome::Pass ==> r is None,
    {
        match self {
            CheckOutcome::Missing => Some(401),
            CheckOutcome::Forbidden => Some(403),
            CheckOutcome::Pass => None,
        }
    }
}

} // verus!
