//! Application configuration.
use vstd::prelude::*;
use std::path::PathBuf;
use crate::queue::{QueueConfig, cpu_count};

verus! {

/// Application configuration.
#[derive(Debug, Clone)]
pub struct AppConfig {
    /// Maximum concurrent conversions.
    pub max_concurrent: usize,
    /// Maximum memory per conversion (bytes).
    pub max_memory_per_conversion: u64,
    /// Maximum total memory for all conversions (bytes).
    pub max_total_memory: u64,
    /// Auto-retry on failure.
    pub auto_retry: bool,
    /// Maximum retry attempts.
    pub max_retries: u32,
    /// Verify output checksums.
    pub verify_output: bool,
    /// Overwrite existing output files.
    pub overwrite_existing: bool,
    /// Temporary directory path.
    pub temp_dir: Option<PathBuf>,
    /// Plugin directory path.
    pub plugin_dir: Option<PathBuf>,
    /// Default output directory (if not specified per conversion).
    pub default_output_dir: Option<PathBuf>,
    /// Log level.
    pub log_level: String,
    /// Enable dark mode (UI setting).
    pub dark_mode: bool,
}

impl Default for AppConfig {
    /// One conversion per logical CPU, 512 MiB per conversion, 4 GiB in all, no
    /// retries, two retry attempts, verified outputs, no overwriting, default
    /// directories and log level "info".
    fn default() -> (r: Self)
        ensures
            r.max_concurrent >= 1,
            r.max_memory_per_conversion == 536870912,
            r.max_total_memory == 4294967296,
            !r.auto_retry,
            r.max_retries == 2,
            r.verify_output,
            !r.overwrite_existing,
            r.temp_dir is None,
            r.plugin_dir is None,
            r.default_output_dir is None,
            r.log_level@ == "info"@,
            !r.dark_mode,
    {
        AppConfig {
            max_concurrent: cpu_count(),
            max_memory_per_conversion: 536870912,
            max_total_memory: 4294967296,
            auto_retry: false,
            max_retries: 2,
            verify_output: true,
            overwrite_existing: false,
            temp_dir: None,
            plugin_dir: None,
            default_output_dir: None,
            log_level: String::from_str("info"),
            dark_mode: false,
        }
    }
}

/// The queue settings a configuration asks for: its limits and policies, field by field.
pub open spec fn queue_settings(c: AppConfig) -> QueueConfig {
    QueueConfig {
        max_concurrent: c.max_concurrent,
        max_memory_per_conversion: c.max_memory_per_conversion,
        max_total_memory: c.max_total_memory,
        auto_retry: c.auto_retry,
        max_retries: c.max_retries,
        verify_output: c.verify_output,
        overwrite_existing: c.overwrite_existing,
    }
}

impl AppConfig {
    /// The queue settings this configuration asks for.
    pub fn queue_config(&self) -> (r: QueueConfig)
        ensures
            r == queue_settings(*self),
    {
        QueueConfig {
            max_concurrent: self.max_concurrent,
            max_memory_per_conversion: self.max_memory_per_conversion,
            max_total_memory: self.max_total_memory,
            auto_retry: self.auto_retry,
            max_retries: self.max_retries,
            verify_output: self.verify_output,
            overwrite_existing: self.overwrite_existing,
        }
    }
}

} // verus!
