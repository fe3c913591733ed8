//! Errors of plugins and of the conversion engine.
use vstd::prelude::*;

verus! {

#[verifier::external_type_specification]
#[verifier::external_body]
pub struct ExIoError(std::io::Error);

/// Errors that plugins can return. The host catches them and turns them into
/// user-facing messages; a plugin error never crashes the host.
#[derive(Debug, Clone, PartialEq, Eq)]
pub enum PluginError {
    DecodeFailed(String),
    EncodeFailed(String),
    InvalidInput(String),
    InternalError(String),
    Cancelled,
    Timeout(u64),
    OutOfMemory { limit_mb: u64, requested_mb: u64 },
    UnsupportedFormat(String),
    IoError(String),
    Crashed(String),
    ConfigError(String),
    DependencyMissing { name: String, version_req: String },
}

/// Validation error for IR data reported by plugins.
#[derive(Debug, Clone)]
pub struct ValidationError {
    pub field: String,
    pub message: String,
    pub severity: ValidationSeverity,
}

#[derive(Debug, Clone, Copy, PartialEq, Eq)]
pub enum ValidationSeverity {
    Warning,
    Error,
}

/// Core engine errors.
#[derive(Debug)]
pub enum CoreError {
    DetectionFailed { reason: String },
    UnsupportedConversion { source: String, target: String },
    NoPluginFound(String),
    PluginError { plugin_id: String, kind: PluginError },
    IrValidationFailed { errors: Vec<String> },
    IntegrityCheckFailed { expected: String, actual: String },
    ResourceLimitExceeded { resource: String, limit: String },
    Cancelled,
    IoError(std::io::Error),
    QueueError(String),
    ConfigError(String),
    Internal(String),
}

impl CoreError {
    /// The engine's reading of a plugin error: a cancellation stays a cancellation,
    /// every other error is attributed to an unknown plugin.
    pub fn from_plugin_error(e: PluginError) -> (r: CoreError)
        ensures
            e is Cancelled ==> r is Cancelled,
            !(e is Cancelled) ==> (r matches CoreError::PluginError { plugin_id, kind } && plugin_id@ == "unknown"@
                && kind == e),
    {
        match e {
            PluginError::Cancelled => CoreError::Cancelled,
            other => CoreError::PluginError { plugin_id: String::from_str("unknown"), kind: other },
        }
    }
}

} // verus!
