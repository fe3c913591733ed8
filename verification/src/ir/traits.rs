//! What every intermediate representation offers.
use vstd::prelude::*;

verus! {

/// A problem found when validating an intermediate representation.
#[derive(Debug, Clone)]
pub struct ValidationError {
    pub field: String,
    pub message: String,
    pub severity: ValidationSeverity,
}

/// How serious a validation problem is.
#[derive(Debug, Clone, Copy, PartialEq, Eq, Structural)]
pub enum ValidationSeverity {
    Warning,
    Error,
}

pub open spec fn issues_view(v: Seq<ValidationError>) -> Seq<(Seq<char>, Seq<char>, ValidationSeverity)> {
    v.map_values(|e: ValidationError| (e.field@, e.message@, e.severity))
}

/// Common behavior of all intermediate representations.
pub trait IntermediateRepresentation {
    /// The memory estimate of this value fits in 64 bits.
    spec fn usage_fits(&self) -> bool;

    /// The IR schema version.
    fn version(&self) -> semver::Version;

    /// Human-readable name of this IR type (e.g., "Document", "Image").
    fn ir_type(&self) -> &'static str;

    /// Estimated memory usage in bytes.
    fn memory_usage(&self) -> u64
        requires
            self.usage_fits(),
    ;

    /// Validate the IR data; the problems found, in a fixed order.
    fn validate(&self) -> Vec<ValidationError>;

    /// Whether this IR holds no meaningful data.
    fn is_empty(&self) -> bool;
}

/// A validation problem.
pub fn issue(field: &str, message: &str, severity: ValidationSeverity) -> (r: ValidationError)
    ensures
        r.field@ == field@,
        r.message@ == message@,
        r.severity == severity,
{
    ValidationError { field: String::from_str(field), message: String::from_str(message), severity }
}

} // verus!
