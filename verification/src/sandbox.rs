//! Resource limits for running plugins in isolation.
use vstd::prelude::*;
use crate::format::SandboxMode;

verus! {

/// Resource limits for plugin execution.
#[derive(Debug, Clone, Copy, PartialEq, Eq)]
pub struct ResourceLimits {
    /// Maximum memory in bytes.
    pub max_memory_bytes: u64,
    /// Maximum CPU time in milliseconds.
    pub max_cpu_time_ms: u64,
    /// Maximum disk I/O in bytes.
    pub max_disk_io_bytes: u64,
    /// Maximum output file size in bytes.
    pub max_output_bytes: u64,
}

/// Memory ceiling for WASM plugins: 256 MiB.
pub const WASM_MEMORY_CAP: u64 = 268435456;

impl Default for ResourceLimits {
    fn default() -> (r: Self)
        ensures
            r.max_memory_bytes == 536870912,
            r.max_cpu_time_ms == 300000,
            r.max_disk_io_bytes == 10737418240,
            r.max_output_bytes == 10737418240,
    {
        ResourceLimits {
            max_memory_bytes: 536870912,
            max_cpu_time_ms: 300000,
            max_disk_io_bytes: 10737418240,
            max_output_bytes: 10737418240,
        }
    }
}

/// The limits that apply to a plugin of the given mode: WASM plugins get at most
/// 256 MiB of memory, everything else is the default.
pub open spec fn spec_limits_for_mode(defaults: ResourceLimits, mode: SandboxMode) -> ResourceLimits {
    match mode {
        SandboxMode::Wasm => ResourceLimits {
            max_memory_bytes: if defaults.max_memory_bytes < WASM_MEMORY_CAP { defaults.max_memory_bytes } else { WASM_MEMORY_CAP },
            ..defaults
        },
        _ => defaults,
    }
}

/// Sandbox manager: the resource limits plugins run under.
pub struct SandboxManager {
    default_limits: ResourceLimits,
}

impl SandboxManager {
    pub fn new(default_limits: ResourceLimits) -> (r: Self)
        ensures
            r.defaults() == default_limits,
    {
        SandboxManager { default_limits }
    }

    pub closed spec fn defaults(&self) -> ResourceLimits {
        self.default_limits
    }

    /// The default resource limits.
    pub fn default_limits(&self) -> (r: &ResourceLimits)
        ensures
            *r == self.defaults(),
    {
        &self.default_limits
    }

    /// Resource limits for a specific sandbox mode.
    pub fn limits_for_mode(&self, mode: &SandboxMode) -> (r: ResourceLimits)
        ensures
            r == spec_limits_for_mode(self.defaults(), *mode),
    {
        match mode {
            SandboxMode::Wasm => {
                let cap = if self.default_limits.max_memory_bytes < WASM_MEMORY_CAP {
                    self.default_limits.max_memory_bytes
                } else {
                    WASM_MEMORY_CAP
                };
                ResourceLimits { max_memory_bytes: cap, ..self.default_limits }
            },
            SandboxMode::Process => self.default_limits,
            SandboxMode::InProcess => ResourceLimits {
                max_memory_bytes: self.default_limits.max_memory_bytes,
                max_cpu_time_ms: self.default_limits.max_cpu_time_ms,
                max_disk_io_bytes: self.default_limits.max_disk_io_bytes,
                max_output_bytes: self.default_limits.max_output_bytes,
            },
        }
    }

    /// Whether a plugin's declared sandbox mode is acceptable: running in the
    /// host process is allowed for trusted plugins only.
    pub fn validate_sandbox_mode(&self, mode: &SandboxMode, trusted: bool) -> (r: bool)
        ensures
            r == (*mode != SandboxMode::InProcess || trusted),
    {
        match mode {
            SandboxMode::Wasm => true,
            SandboxMode::Process => true,
            SandboxMode::InProcess => trusted,
        }
    }

    /// Sandboxing never raises a limit: every limit for any mode is at most the default.
    pub proof fn law_limits_never_exceed_defaults(&self, mode: SandboxMode)
        ensures
            spec_limits_for_mode(self.defaults(), mode).max_memory_bytes <= self.defaults().max_memory_bytes,
            spec_limits_for_mode(self.defaults(), mode).max_cpu_time_ms == self.defaults().max_cpu_time_ms,
            spec_limits_for_mode(self.defaults(), mode).max_disk_io_bytes == self.defaults().max_disk_io_bytes,
            spec_limits_for_mode(self.defaults(), mode).max_output_bytes == self.defaults().max_output_bytes,
    {
    }
}

impl Default for SandboxManager {
    fn default() -> (r: Self)
        ensures
            r.defaults().max_memory_bytes == 536870912,
            r.defaults().max_cpu_time_ms == 300000,
            r.defaults().max_disk_io_bytes == 10737418240,
            r.defaults().max_output_bytes == 10737418240,
    {
        Self::new(ResourceLimits::default())
    }
}

} // verus!
