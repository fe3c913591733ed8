use std::path::{Path, PathBuf};
use ufc::config::AppConfig;
use ufc::errors::{CoreError, PluginError};
use ufc::format::{FormatId, SandboxMode};
use ufc::format_names::format_to_mime;
use ufc::order::str_less;
use ufc::queue::{ConversionQueue, Timestamp};
use ufc::sandbox::{ResourceLimits, SandboxManager};
use ufc::state::{AppState, HistoryEntry, StateManager};
use ufc::temp_manager::TempManager;
use ufc::text::{contains, str_eq_ignore_ascii_case, u64_to_decimal};

fn entry(input: &str, source: &str) -> HistoryEntry {
    HistoryEntry {
        input_path: input.to_string(),
        output_path: "out/result.bin".to_string(),
        source_format: source.to_string(),
        target_format: "image/jpeg".to_string(),
        success: true,
        bytes_written: Some(1),
        duration_ms: Some(2),
        timestamp: Timestamp { secs: 0, nanos: 0 },
        error: None,
    }
}

#[test]
fn forget_stops_tracking_a_session() {
    let mut manager = TempManager::new(PathBuf::from("/tmp/ufc"));
    let dir = PathBuf::from("/tmp/ufc/session-1");
    manager.track(dir.clone());
    assert_eq!(manager.active_session_count(), 1);

    manager.forget(&dir);
    assert_eq!(manager.active_session_count(), 0);
}

#[test]
fn take_all_hands_over_sessions_oldest_first() {
    let mut manager = TempManager::new(PathBuf::from("base"));
    manager.track(PathBuf::from("base/one"));
    manager.track(PathBuf::from("base/two"));
    manager.forget(Path::new("base/other"));
    assert_eq!(manager.active_session_count(), 2);
    let dirs = manager.take_all();
    assert_eq!(dirs, vec![PathBuf::from("base/one"), PathBuf::from("base/two")]);
    assert_eq!(manager.active_session_count(), 0);
    assert_eq!(manager.base_dir(), &PathBuf::from("base"));
}

#[test]
fn format_names_map_to_mime_types() {
    assert_eq!(format_to_mime("png"), "image/png");
    assert_eq!(format_to_mime("JPG"), "image/jpeg");
    assert_eq!(format_to_mime("Yml"), "application/x-yaml");
    assert_eq!(format_to_mime("docx"), "application/vnd.openxmlformats-officedocument.wordprocessingml.document");
    assert_eq!(format_to_mime("avi"), "video/x-msvideo");
    assert_eq!(format_to_mime("nope"), "application/octet-stream");
}

#[test]
fn default_configuration_values() {
    let config = AppConfig::default();
    assert!(config.max_concurrent >= 1);
    assert_eq!(config.max_memory_per_conversion, 512 * 1024 * 1024);
    assert_eq!(config.max_total_memory, 4 * 1024 * 1024 * 1024);
    assert!(!config.auto_retry);
    assert_eq!(config.max_retries, 2);
    assert!(config.verify_output);
    assert_eq!(config.log_level, "info");
    let q = config.queue_config();
    assert_eq!(q.max_concurrent, config.max_concurrent);
    assert_eq!(q.max_retries, 2);
}

#[test]
fn wasm_limits_are_capped() {
    let manager = SandboxManager::default();
    let wasm = manager.limits_for_mode(&SandboxMode::Wasm);
    assert_eq!(wasm.max_memory_bytes, 256 * 1024 * 1024);
    assert_eq!(wasm.max_cpu_time_ms, 300_000);
    let process = manager.limits_for_mode(&SandboxMode::Process);
    assert_eq!(process, *manager.default_limits());
    let small = SandboxManager::new(ResourceLimits { max_memory_bytes: 1000, ..ResourceLimits::default() });
    assert_eq!(small.limits_for_mode(&SandboxMode::Wasm).max_memory_bytes, 1000);
}

#[test]
fn in_process_plugins_must_be_trusted() {
    let manager = SandboxManager::default();
    assert!(manager.validate_sandbox_mode(&SandboxMode::Wasm, false));
    assert!(manager.validate_sandbox_mode(&SandboxMode::Process, false));
    assert!(!manager.validate_sandbox_mode(&SandboxMode::InProcess, false));
    assert!(manager.validate_sandbox_mode(&SandboxMode::InProcess, true));
}

#[test]
fn format_id_matching() {
    let jpeg = FormatId::new("image/jpeg", &["jpg", "jpeg"], "JPEG");
    assert!(jpeg.matches_extension("JPG"));
    assert!(!jpeg.matches_extension("png"));
    assert!(jpeg.matches_mime("IMAGE/JPEG"));
    assert!(!jpeg.matches_mime("image/png"));
    assert_eq!(jpeg.to_display_string(), "JPEG");
}

#[test]
fn plugin_errors_become_core_errors() {
    assert!(matches!(CoreError::from_plugin_error(PluginError::Cancelled), CoreError::Cancelled));
    match CoreError::from_plugin_error(PluginError::Timeout(30)) {
        CoreError::PluginError { plugin_id, kind } => {
            assert_eq!(plugin_id, "unknown");
            assert!(matches!(kind, PluginError::Timeout(30)));
        }
        _ => panic!("expected a plugin error"),
    }
}

#[test]
fn history_keeps_the_last_thousand_entries() {
    let mut manager = StateManager::new(PathBuf::from("state.json"), None);
    assert_eq!(manager.state().version, 1);
    for i in 0..1005u32 {
        manager.add_history(entry(&format!("in{}.png", i), "image/png"));
    }
    let history = &manager.state().history;
    assert_eq!(history.len(), 1000);
    assert_eq!(history[0].input_path, "in5.png");
    assert_eq!(history[999].input_path, "in1004.png");
    manager.clear_history();
    assert!(manager.state().history.is_empty());
}

#[test]
fn history_search_ignores_case() {
    let mut manager = StateManager::new(PathBuf::from("state.json"), None);
    manager.add_history(entry("Photos/Beach.PNG", "image/png"));
    manager.add_history(entry("docs/report.pdf", "application/pdf"));
    let hits = manager.search_history("beach");
    assert_eq!(hits.len(), 1);
    assert_eq!(hits[0].input_path, "Photos/Beach.PNG");
    assert_eq!(manager.search_history("PDF").len(), 1);
    assert_eq!(manager.search_history("RESULT").len(), 2);
    assert_eq!(manager.search_history("zzz").len(), 0);
}

#[test]
fn loaded_state_is_kept() {
    let loaded = AppState { queue: ConversionQueue::default(), history: vec![entry("a", "b")], version: 7 };
    let mut manager = StateManager::new(PathBuf::from("s.json"), Some(loaded));
    assert_eq!(manager.state().version, 7);
    manager.state_mut().version = 8;
    assert_eq!(manager.state().version, 8);
    assert_eq!(manager.state_path(), &PathBuf::from("s.json"));
}

#[test]
fn text_helpers() {
    assert_eq!(u64_to_decimal(0), "0");
    assert_eq!(u64_to_decimal(18446744073709551615), "18446744073709551615");
    assert!(contains("abcdef", "cde"));
    assert!(!contains("abc", "abcd"));
    assert!(str_eq_ignore_ascii_case("MiXeD", "mixed"));
    assert!(str_less("image/jpeg", "image/png"));
    assert!(str_less("abc", "abcd"));
    assert!(!str_less("abc", "abc"));
    assert!(!str_less("b", "a"));
}
