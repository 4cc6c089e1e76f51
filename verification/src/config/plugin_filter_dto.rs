//! Filters as the configuration lists them, at each of the four levels a
//! filter can be attached to (gateway, route, rule, backend).
use vstd::prelude::*;

use crate::plugins::filters::header_modifier::SgFilterHeaderModifier;
use crate::plugins::filters::redirect::SgFilterRedirect;
use crate::plugins::filters::rewrite::SgFilterRewrite;

verus! {

/// The settings of a configured filter: JSON text for the filter of that
/// code to read, or the settings of one of the filters the gateway API
/// itself describes.
#[derive(Debug, Clone)]
pub enum SgRouteFilterSpec {
    Json(String),
    HeaderModifier(SgFilterHeaderModifier),
    Redirect(SgFilterRedirect),
    Rewrite(SgFilterRewrite),
}

/// A processing step of the request or response: the code of the filter
/// that does it, a name (a filter of the same name at a more specific level
/// takes the place of this one), and its settings.
#[derive(Debug, Clone)]
pub struct SgRouteFilter {
    pub code: String,
    pub name: Option<String>,
    pub spec: SgRouteFilterSpec,
}

} // verus!
