//! The verified core of the Spacegate gateway kernel: request routing,
//! path rewriting, encoding negotiation, sliding-window error counting,
//! expiring caches and the configuration objects they read.
use vstd::prelude::*;

pub mod config;
pub mod error;
pub mod extension;
pub mod functions;
pub mod helper_layers;
pub mod instance;
pub mod keyed;
pub mod layers;
pub mod marker;
pub mod pattern;
pub mod plugin;
pub mod plugin_layers;
pub mod plugins;
pub mod random;
pub mod text;
pub mod urls;

verus! {

} // verus!
