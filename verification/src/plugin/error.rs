//! Plugin error types.
use vstd::prelude::*;
use crate::text::{push_text, text_of};

verus! {

/// Plugin-related errors.
#[derive(Debug)]
pub enum PluginError {
    /// Plugin not found in registry.
    NotFound(String),
    /// Plugin initialization failed.
    InitializationFailed(String),
    /// Plugin configuration error.
    ConfigurationError(String),
    /// Plugin execution error.
    ExecutionError(String),
    /// Plugin registration error (duplicate, etc.).
    RegistrationError(String),
    /// Plugin type mismatch.
    TypeMismatch { expected: String, actual: String },
    /// Invalid plugin name.
    InvalidName(String),
    /// Missing required configuration.
    MissingConfiguration(String),
    /// I/O error, with its description.
    IoError(String),
    /// JSON error, with its description.
    JsonError(String),
    /// Other errors.
    Other(String),
}

/// Result type for plugin operations.
pub type PluginResult<T> = Result<T, PluginError>;

/// The text of an error, as it is displayed.
pub open spec fn plugin_error_text(e: PluginError) -> Seq<char> {
    match e {
        PluginError::NotFound(s) => "Plugin not found: "@ + s@,
        PluginError::InitializationFailed(s) => "Plugin initialization failed: "@ + s@,
        PluginError::ConfigurationError(s) => "Plugin configuration error: "@ + s@,
        PluginError::ExecutionError(s) => "Plugin execution error: "@ + s@,
        PluginError::RegistrationError(s) => "Plugin registration error: "@ + s@,
        PluginError::TypeMismatch { expected, actual } => "Plugin type mismatch: expected "@ + expected@ + ", got "@ + actual@,
        PluginError::InvalidName(s) => "Invalid plugin name: "@ + s@,
        PluginError::MissingConfiguration(s) => "Missing required configuration: "@ + s@,
        PluginError::IoError(s) => "I/O error: "@ + s@,
        PluginError::JsonError(s) => "JSON error: "@ + s@,
        PluginError::Other(s) => "Plugin error: "@ + s@,
    }
}

fn prefixed(prefix: &str, s: &String) -> (r: String)
    ensures
        r@ == prefix@ + s@,
{
    let mut r = text_of(prefix);
    push_text(&mut r, s.as_str());
    r
}

impl PluginError {
    /// A not-found error.
    pub fn not_found(name: &str) -> (e: Self)
        ensures
            e matches PluginError::NotFound(s) && s@ == name@,
    {
        PluginError::NotFound(text_of(name))
    }

    /// An initialization error.
    pub fn initialization_failed(reason: &str) -> (e: Self)
        ensures
            e matches PluginError::InitializationFailed(s) && s@ == reason@,
    {
        PluginError::InitializationFailed(text_of(reason))
    }

    /// A configuration error.
    pub fn configuration_error(reason: &str) -> (e: Self)
        ensures
            e matches PluginError::ConfigurationError(s) && s@ == reason@,
    {
        PluginError::ConfigurationError(text_of(reason))
    }

    /// An execution error.
    pub fn execution_error(reason: &str) -> (e: Self)
        ensures
            e matches PluginError::ExecutionError(s) && s@ == reason@,
    {
        PluginError::ExecutionError(text_of(reason))
    }

    /// A registration error.
    pub fn registration_error(reason: &str) -> (e: Self)
        ensures
            e matches PluginError::RegistrationError(s) && s@ == reason@,
    {
        PluginError::RegistrationError(text_of(reason))
    }

    /// A type mismatch error.
    pub fn type_mismatch(expected: &str, actual: &str) -> (e: Self)
        ensures
            e matches PluginError::TypeMismatch { expected: x, actual: y } && x@ == expected@ && y@ == actual@,
    {
        PluginError::TypeMismatch { expected: text_of(expected), actual: text_of(actual) }
    }

    /// An invalid-name error.
    pub fn invalid_name(name: &str) -> (e: Self)
        ensures
            e matches PluginError::InvalidName(s) && s@ == name@,
    {
        PluginError::InvalidName(text_of(name))
    }

    /// A missing-configuration error.
    pub fn missing_configuration(key: &str) -> (e: Self)
        ensures
            e matches PluginError::MissingConfiguration(s) && s@ == key@,
    {
        PluginError::MissingConfiguration(text_of(key))
    }

    /// Any other error.
    pub fn other(reason: &str) -> (e: Self)
        ensures
            e matches PluginError::Other(s) && s@ == reason@,
    {
        PluginError::Other(text_of(reason))
    }

    /// Whether this is a not-found error.
    pub fn is_not_found(&self) -> (b: bool)
        ensures
            b == (*self is NotFound),
    {
        match self {
            PluginError::NotFound(_) => true,
            _ => false,
        }
    }

    /// Whether this is an initialization error.
    pub fn is_initialization(&self) -> (b: bool)
        ensures
            b == (*self is InitializationFailed),
    {
        match self {
            PluginError::InitializationFailed(_) => true,
            _ => false,
        }
    }

    /// Whether this is a configuration error.
    pub fn is_configuration(&self) -> (b: bool)
        ensures
            b == (*self is ConfigurationError),
    {
        match self {
            PluginError::ConfigurationError(_) => true,
            _ => false,
        }
    }

    /// Whether the error can be recovered from: all but initialization
    /// failures and type mismatches.
    pub fn is_recoverable(&self) -> (b: bool)
        ensures
            b == !(*self is InitializationFailed || *self is TypeMismatch),
    {
        match self {
            PluginError::InitializationFailed(_) => false,
            PluginError::TypeMismatch { .. } => false,
            _ => true,
        }
    }

    /// The error's text, as it is displayed.
    pub fn message(&self) -> (r: String)
        ensures
            r@ == plugin_error_text(*self),
    {
        match self {
            PluginError::NotFound(s) => prefixed("Plugin not found: ", s),
            PluginError::InitializationFailed(s) => prefixed("Plugin initialization failed: ", s),
            PluginError::ConfigurationError(s) => prefixed("Plugin configuration error: ", s),
            PluginError::ExecutionError(s) => prefixed("Plugin execution error: ", s),
            PluginError::RegistrationError(s) => prefixed("Plugin registration error: ", s),
            PluginError::TypeMismatch { expected, actual } => {
                let mut r = prefixed("Plugin type mismatch: expected ", expected);
                push_text(&mut r, ", got ");
                push_text(&mut r, actual.as_str());
                r
            },
            PluginError::InvalidName(s) => prefixed("Invalid plugin name: ", s),
            PluginError::MissingConfiguration(s) => prefixed("Missing required configuration: ", s),
            PluginError::IoError(s) => prefixed("I/O error: ", s),
            PluginError::JsonError(s) => prefixed("JSON error: ", s),
            PluginError::Other(s) => prefixed("Plugin error: ", s),
        }
    }
}

}
