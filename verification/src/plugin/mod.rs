//! The plugin system: kinds, errors, traits, registration and management.

pub mod error;
pub mod types;
pub mod traits;
pub mod table;
pub mod registry;
pub mod factory;
pub mod manager;

pub use error::{PluginError, PluginResult};
pub use factory::{AnyPlugin, PluginFactory};
pub use manager::PluginManager;
pub use registry::PluginRegistry;
pub use traits::{Filter, FromConfig, Input, Output, Plugin};
pub use types::{FilterStats, InputStats, OutputStats, PluginConfig, PluginStatus, PluginType};
