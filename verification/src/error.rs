//! The errors that the gateway's logic reports.
use vstd::prelude::*;

verus! {

/// The kind of failure, following the gateway's error categories.
#[derive(Debug, Clone, Copy, PartialEq, Eq, Structural)]
pub enum SgError {
    /// The request or a value derived from it is malformed.
    BadRequest,
    /// A configured value could not be parsed.
    FormatError,
    /// A value produced along the way could not be used.
    InternalError,
    /// The request is refused.
    Forbidden,
    /// The configuration uses a feature that is not supported.
    NotImplemented,
}

} // verus!
