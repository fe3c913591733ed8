use std::path::{Path, PathBuf};
use ufc::config::AppConfig;
use ufc::errors::CoreError;
use ufc::format::{Capabilities, FormatId, PluginManifest, SandboxMode};
use ufc::orchestrator::{Orchestrator, OrchestratorEvent};
use ufc::queue::{QueueItemStatus, Timestamp};
use ufc::state::StateManager;
use ufc::temp_manager::TempManager;

fn manifest(id: &str, inputs: Vec<FormatId>, outputs: Vec<FormatId>) -> PluginManifest {
    PluginManifest {
        id: id.to_string(),
        version: semver::Version::new(1, 0, 0),
        api_version: semver::Version::new(1, 0, 0),
        author: "test".to_string(),
        license: "MIT".to_string(),
        description: "test".to_string(),
        input_formats: inputs,
        output_formats: outputs,
        capabilities: Capabilities::default(),
        dependencies: vec![],
        priority: 0,
        fidelity_score: 90,
        known_limitations: vec![],
        sandbox_mode: SandboxMode::InProcess,
    }
}

fn orchestrator(max_concurrent: usize) -> Orchestrator<&'static str> {
    let mut config = AppConfig::default();
    config.max_concurrent = max_concurrent;
    Orchestrator::new(
        config,
        StateManager::new(PathBuf::from("state.json"), None),
        TempManager::new(PathBuf::from("tmp")),
    )
}

fn png_header() -> Vec<u8> {
    vec![0x89, 0x50, 0x4E, 0x47, 0x0D, 0x0A, 0x1A, 0x0A]
}

#[test]
fn enqueue_emits_queued_event() {
    let mut o = orchestrator(2);
    let id = o.enqueue("a.png".to_string(), "a.jpg".to_string(), "image/jpeg").unwrap();
    let events = o.take_events();
    assert_eq!(events.len(), 1);
    assert!(matches!(events[0], OrchestratorEvent::ItemQueued { item_id } if item_id == id));
    assert!(o.take_events().is_empty());
    assert_eq!(o.queue().get(id).unwrap().target_format, "image/jpeg");
}

#[test]
fn jobs_start_in_queue_order_within_the_limit() {
    let mut o = orchestrator(1);
    let ids = o
        .enqueue_batch(vec![("a.png".to_string(), "a.jpg".to_string()), ("b.png".to_string(), "b.jpg".to_string())], "image/jpeg")
        .unwrap();
    assert_eq!(ids.len(), 2);
    let job = o.next_job().unwrap();
    assert_eq!(job.item_id, ids[0]);
    assert_eq!(job.input_path, "a.png");
    assert_eq!(o.queue().get(ids[0]).unwrap().status, QueueItemStatus::Converting);
    assert!(o.next_job().is_none());
    o.finish_job(&job, Ok((100, "abc".to_string()))).unwrap();
    let next = o.next_job().unwrap();
    assert_eq!(next.item_id, ids[1]);
    o.finish_job(&next, Err("decoder crashed".to_string())).unwrap();
    assert!(o.next_job().is_none());
    let stats = o.finish_queue();
    assert_eq!(stats.completed, 1);
    assert_eq!(stats.failed, 1);
    let history = &o.state().state().history;
    assert_eq!(history.len(), 2);
    assert!(history[0].success);
    assert_eq!(history[0].bytes_written, Some(100));
    assert!(!history[1].success);
    assert_eq!(history[1].error.as_deref(), Some("decoder crashed"));
    let events = o.take_events();
    assert_eq!(events.len(), 2 + 2 + 1);
    assert!(matches!(&events[2], OrchestratorEvent::Completed { bytes_written: 100, checksum, .. } if checksum == "abc"));
    assert!(matches!(&events[3], OrchestratorEvent::Failed { error, .. } if error == "decoder crashed"));
    assert!(matches!(&events[4], OrchestratorEvent::QueueFinished { stats } if stats.total == 2));
}

#[test]
fn planning_needs_both_plugins() {
    let mut o = orchestrator(1);
    let png = FormatId::new("image/png", &["png"], "PNG");
    let jpeg = FormatId::new("image/jpeg", &["jpg"], "JPEG");
    match o.plan_conversion(Path::new("a.png"), &png_header(), "image/jpeg") {
        Err(CoreError::NoPluginFound(msg)) => assert_eq!(msg, "No decoder for image/png"),
        _ => panic!("expected a missing decoder"),
    }
    o.register_plugin("png", manifest("png-dec", vec![png.clone()], vec![]));
    o.register_plugin("jpeg", manifest("jpeg-enc", vec![], vec![jpeg.clone()]));
    let (source, path) = o.plan_conversion(Path::new("a.png"), &png_header(), "image/jpeg").unwrap();
    assert_eq!(source.mime, "image/png");
    assert_eq!(path.decode_plugin, "png-dec");
    assert_eq!(path.encode_plugin, "jpeg-enc");
    assert_eq!(o.find_plugin("png-dec"), Some(&"png"));
    assert_eq!(o.find_plugin("nope"), None);
    assert!(matches!(
        o.plan_conversion(Path::new("noext"), b"\x00\x00", "image/jpeg"),
        Err(CoreError::DetectionFailed { .. })
    ));
    assert_eq!(o.supported_conversions().len(), 1);
}

#[test]
fn output_checksum_is_checked_when_configured() {
    let o = orchestrator(1);
    assert!(o.verifies_output());
    assert!(o.check_output("abc", "abc").is_ok());
    match o.check_output("abc", "abd") {
        Err(CoreError::IntegrityCheckFailed { expected, actual }) => {
            assert_eq!(expected, "abc");
            assert_eq!(actual, "abd");
        }
        _ => panic!("expected an integrity failure"),
    }
    let mut config = AppConfig::default();
    config.verify_output = false;
    let lax: Orchestrator<u8> =
        Orchestrator::new(config, StateManager::new(PathBuf::from("s"), None), TempManager::new(PathBuf::from("t")));
    assert!(lax.check_output("abc", "abd").is_ok());
}

#[test]
fn cancelling_an_item_emits_an_event() {
    let mut o = orchestrator(1);
    let id = o.enqueue("a.png".to_string(), "a.jpg".to_string(), "image/jpeg").unwrap();
    assert!(o.cancel_item(id));
    assert!(!o.cancel_item(id + 1));
    assert_eq!(o.queue().get(id).unwrap().status, QueueItemStatus::Cancelled);
    let events = o.take_events();
    assert!(matches!(events[1], OrchestratorEvent::Cancelled { item_id } if item_id == id));
}

#[test]
fn pause_resume_and_cancel_all_reach_the_queue() {
    let mut o = orchestrator(4);
    o.enqueue("a.png".to_string(), "a.jpg".to_string(), "image/jpeg").unwrap();
    o.enqueue("b.png".to_string(), "b.jpg".to_string(), "image/jpeg").unwrap();
    let job = o.next_job().unwrap();
    o.pause_all();
    assert_eq!(o.queue().get(job.item_id).unwrap().status, QueueItemStatus::Paused);
    o.resume_all();
    assert_eq!(o.queue().get(job.item_id).unwrap().status, QueueItemStatus::Pending);
    o.cancel_all();
    assert_eq!(o.queue().stats().cancelled, 2);
    assert!(o.detect_format(Path::new("x.pdf"), b"%PDF").is_ok());
}

#[test]
fn finish_job_at_records_the_given_time() {
    let mut o = orchestrator(1);
    let id = o.enqueue("a.png".to_string(), "a.jpg".to_string(), "image/jpeg").unwrap();
    let job = o.next_job().unwrap();
    let at = Timestamp { secs: 4_000_000_000, nanos: 0 };
    o.finish_job_at(&job, Ok((5, "sum".to_string())), at);
    let item = o.queue().get(id).unwrap();
    assert_eq!(item.status, QueueItemStatus::Completed);
    assert_eq!(item.completed_at, Some(at));
    let history = &o.state().state().history;
    assert_eq!(history.len(), 1);
    assert_eq!(history[0].timestamp, at);
    assert!(history[0].duration_ms.is_some());
}
