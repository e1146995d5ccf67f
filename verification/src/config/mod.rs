//! Configuration: the application's settings, their validation, and the
//! decisions of loading them.

pub mod config;
pub mod defaults;
pub mod loader;
pub mod validation;

pub use config::{AppConfig, FilterConfig, InputConfig, OutputConfig};
pub use loader::{ConfigError, ConfigLoader};
pub use validation::ConfigValidator;
