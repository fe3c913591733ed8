use std::path::PathBuf;
use ufc::config::AppConfig;
use ufc::orchestrator::Orchestrator;
use ufc::queue::{
    elapsed_millis, timestamp_from_reading, ConversionQueue, QueueConfig, QueueItem, QueueItemStatus, Timestamp,
};
use ufc::state::StateManager;
use ufc::temp_manager::TempManager;

fn item(input: &str, output: &str) -> QueueItem {
    QueueItem::new(input.to_string(), output.to_string(), "image/jpeg".to_string()).unwrap()
}

fn small_queue() -> ConversionQueue {
    let mut config = QueueConfig::default();
    config.max_concurrent = 1;
    ConversionQueue::new(config)
}

#[test]
fn test_queue_operations() {
    let mut queue = ConversionQueue::default();

    let item1 = QueueItem::new("a.png".to_string(), "a.jpg".to_string(), "image/jpeg".to_string()).unwrap();
    let item2 = QueueItem::new("b.png".to_string(), "b.jpg".to_string(), "image/jpeg".to_string()).unwrap();

    let id1 = queue.push(item1);
    let _id2 = queue.push(item2);

    assert_eq!(queue.stats().total, 2);
    assert_eq!(queue.stats().pending, 2);

    let next = queue.next_pending().unwrap();
    assert_eq!(next.id, id1);

    let item = queue.get_mut(id1).unwrap();
    item.start();
    assert_eq!(queue.stats().converting, 1);

    let item = queue.get_mut(id1).unwrap();
    item.complete(1024, "abc123".to_string());
    assert_eq!(queue.stats().completed, 1);
}

#[test]
fn higher_priority_runs_first() {
    let mut queue = ConversionQueue::default();
    let first = item("a.png", "a.jpg");
    let mut urgent = item("b.png", "b.jpg");
    urgent.priority = 5;
    let id_first = queue.push(first);
    let id_urgent = queue.push(urgent);
    assert_eq!(queue.all_items()[0].id, id_urgent);
    assert_eq!(queue.all_items()[1].id, id_first);
    assert_eq!(queue.next_pending_index(), Some(0));
}

#[test]
fn equal_priority_keeps_creation_order() {
    let mut queue = ConversionQueue::default();
    let mut a = item("a.png", "a.jpg");
    let mut b = item("b.png", "b.jpg");
    a.created_at = Timestamp { secs: 100, nanos: 0 };
    b.created_at = Timestamp { secs: 50, nanos: 0 };
    queue.push(a);
    queue.push(b);
    assert_eq!(queue.all_items()[0].input_path, "b.png");
    assert_eq!(queue.all_items()[1].input_path, "a.png");
}

#[test]
fn concurrency_limit_stops_new_starts() {
    let mut queue = small_queue();
    let id = queue.push(item("a.png", "a.jpg"));
    queue.push(item("b.png", "b.jpg"));
    assert!(queue.can_start_more());
    queue.get_mut(id).unwrap().start();
    assert_eq!(queue.active_count(), 1);
    assert!(!queue.can_start_more());
    assert_eq!(queue.pending_items().len(), 1);
}

#[test]
fn cancel_all_stops_pending_and_running() {
    let mut queue = ConversionQueue::default();
    let a = queue.push(item("a.png", "a.jpg"));
    let b = queue.push(item("b.png", "b.jpg"));
    let c = queue.push(item("c.png", "c.jpg"));
    queue.get_mut(a).unwrap().start();
    queue.get_mut(c).unwrap().fail("boom".to_string());
    queue.cancel_all();
    assert_eq!(queue.get(a).unwrap().status, QueueItemStatus::Cancelled);
    assert_eq!(queue.get(b).unwrap().status, QueueItemStatus::Cancelled);
    assert_eq!(queue.get(c).unwrap().status, QueueItemStatus::Failed);
    let stats = queue.stats();
    assert_eq!(stats.pending + stats.converting, 0);
    assert_eq!(stats.cancelled, 2);
}

#[test]
fn pause_then_resume_returns_work_to_pending() {
    let mut queue = ConversionQueue::default();
    let a = queue.push(item("a.png", "a.jpg"));
    queue.push(item("b.png", "b.jpg"));
    queue.get_mut(a).unwrap().start();
    queue.pause_all();
    assert_eq!(queue.get(a).unwrap().status, QueueItemStatus::Paused);
    assert_eq!(queue.count_by_status(QueueItemStatus::Converting), 0);
    queue.resume_all();
    assert_eq!(queue.get(a).unwrap().status, QueueItemStatus::Pending);
    assert_eq!(queue.stats().pending, 2);
}

#[test]
fn clear_finished_keeps_unfinished_in_order() {
    let mut queue = ConversionQueue::default();
    let a = queue.push(item("a.png", "a.jpg"));
    let b = queue.push(item("b.png", "b.jpg"));
    let c = queue.push(item("c.png", "c.jpg"));
    queue.get_mut(b).unwrap().complete(10, "x".to_string());
    queue.clear_finished();
    let ids: Vec<u128> = queue.all_items().iter().map(|i| i.id).collect();
    assert_eq!(ids, vec![a, c]);
    queue.clear_finished();
    assert_eq!(queue.all_items().len(), 2);
}

#[test]
fn remove_reports_whether_the_item_was_there() {
    let mut queue = ConversionQueue::default();
    let a = queue.push(item("a.png", "a.jpg"));
    assert!(queue.remove(a));
    assert!(!queue.remove(a));
    assert!(queue.get(a).is_none());
    assert_eq!(queue.stats().total, 0);
}

#[test]
fn duration_counts_milliseconds_between_start_and_end() {
    let mut it = item("a.png", "a.jpg");
    assert_eq!(it.duration(), None);
    it.started_at = Some(Timestamp { secs: 10, nanos: 500_000_000 });
    it.completed_at = Some(Timestamp { secs: 12, nanos: 0 });
    assert_eq!(it.duration(), Some(1500));
}

#[test]
fn elapsed_millis_rounds_toward_zero() {
    let a = Timestamp { secs: 0, nanos: 0 };
    let b = Timestamp { secs: 0, nanos: 1_999_999 };
    assert_eq!(elapsed_millis(a, b), 1);
    assert_eq!(elapsed_millis(b, a), -1);
}

#[test]
fn item_life_cycle_sets_status_and_results() {
    let mut it = item("a.png", "a.jpg");
    assert_eq!(it.status, QueueItemStatus::Pending);
    it.start();
    assert!(it.started_at.is_some());
    it.pause();
    assert_eq!(it.status, QueueItemStatus::Paused);
    it.resume();
    assert_eq!(it.status, QueueItemStatus::Pending);
    it.cancel();
    assert_eq!(it.status, QueueItemStatus::Cancelled);
    it.fail("bad".to_string());
    assert_eq!(it.error.as_deref(), Some("bad"));
    it.complete(7, "sum".to_string());
    assert_eq!(it.bytes_written, Some(7));
    assert_eq!(it.output_checksum.as_deref(), Some("sum"));
}

#[test]
fn new_items_get_distinct_version_four_ids() {
    let a = QueueItem::new("a.png".to_string(), "a.jpg".to_string(), "image/jpeg".to_string()).unwrap();
    let b = QueueItem::new("b.png".to_string(), "b.jpg".to_string(), "image/jpeg".to_string()).unwrap();
    assert_ne!(a.id, b.id);
    assert_eq!(uuid::Uuid::from_u128(a.id).get_version_num(), 4);
    assert_eq!(uuid::Uuid::from_u128(b.id).get_variant(), uuid::Variant::RFC4122);
    assert!(a.created_at.secs > 0);
}

#[test]
fn clock_readings_become_timestamps_within_range() {
    assert_eq!(timestamp_from_reading(Some((1_700_000_000, 5))), Some(Timestamp { secs: 1_700_000_000, nanos: 5 }));
    assert_eq!(timestamp_from_reading(Some((8_796_093_022_208, 0))), None);
    assert_eq!(timestamp_from_reading(None), None);
}

#[test]
fn timed_state_changes_record_the_given_time() {
    let t1 = Timestamp { secs: 100, nanos: 0 };
    let t2 = Timestamp { secs: 101, nanos: 500_000_000 };
    let mut it = QueueItem::with_identity(7, Timestamp { secs: 50, nanos: 0 }, "a".to_string(), "b".to_string(), "c".to_string());
    assert_eq!(it.id, 7);
    assert_eq!(it.status, QueueItemStatus::Pending);
    it.start_at(Some(t1));
    assert_eq!(it.started_at, Some(t1));
    assert_eq!(it.duration_at(t2), Some(1500));
    it.complete_at(10, "x".to_string(), Some(t2));
    assert_eq!(it.status, QueueItemStatus::Completed);
    assert_eq!(it.completed_at, Some(t2));
    assert_eq!(it.bytes_written, Some(10));
    let mut f = QueueItem::with_identity(8, t1, "a".to_string(), "b".to_string(), "c".to_string());
    f.fail_at("bad".to_string(), Some(t2));
    assert_eq!(f.completed_at, Some(t2));
    assert_eq!(f.error.as_deref(), Some("bad"));
    let mut c = QueueItem::with_identity(9, t1, "a".to_string(), "b".to_string(), "c".to_string());
    c.cancel_at(Some(t1));
    assert_eq!(c.status, QueueItemStatus::Cancelled);
    assert_eq!(c.completed_at, Some(t1));
}

#[test]
fn cancel_all_at_stamps_cancelled_items() {
    let t = Timestamp { secs: 42, nanos: 0 };
    let mut queue = ConversionQueue::default();
    queue.push(QueueItem::with_identity(1, t, "a".to_string(), "b".to_string(), "c".to_string()));
    let mut done = QueueItem::with_identity(2, t, "d".to_string(), "e".to_string(), "f".to_string());
    done.complete_at(1, "k".to_string(), None);
    queue.push(done);
    queue.cancel_all_at(Some(t));
    let a = queue.get(1).unwrap();
    assert_eq!(a.status, QueueItemStatus::Cancelled);
    assert_eq!(a.completed_at, Some(t));
    let b = queue.get(2).unwrap();
    assert_eq!(b.status, QueueItemStatus::Completed);
    assert_eq!(b.completed_at, None);
}

#[test]
fn batch_items_keep_their_paths_in_order() {
    let mut o: Orchestrator<u8> = Orchestrator::new(
        AppConfig::default(),
        StateManager::new(PathBuf::from("s.json"), None),
        TempManager::new(PathBuf::from("tmp")),
    );
    let ids = o
        .enqueue_batch(vec![("in1".to_string(), "out1".to_string()), ("in2".to_string(), "out2".to_string())], "image/png")
        .unwrap();
    let first = o.queue().get(ids[0]).unwrap();
    assert_eq!((first.input_path.as_str(), first.output_path.as_str()), ("in1", "out1"));
    let second = o.queue().get(ids[1]).unwrap();
    assert_eq!((second.input_path.as_str(), second.output_path.as_str()), ("in2", "out2"));
    assert_eq!(second.target_format, "image/png");
}
