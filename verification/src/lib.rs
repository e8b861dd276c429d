//! A registry of component metadata.
//!
//! An embedded TOML manifest describes a fixed set of named software
//! components (executables, source repository, target platforms, plugin
//! flag).  The manifest is parsed into typed records on every query, and a
//! small query surface looks records up by name and lists them filtered and
//! sorted.

mod model;
mod order;
mod records;
mod toml_data;
mod parse;
mod queries;
mod laws;

pub use records::{Component, ComponentError, ComponentView, Components, Plugin, PluginView};
pub use records::{FORC, FUELUP};
pub use queries::COMPONENTS_TOML;
