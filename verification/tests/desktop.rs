use ufc::desktop::{list_format_infos, ConversionResult, FormatInfo, HistoryEntry, QueueStatus};
use ufc::format::FormatId;
use ufc::queue::{QueueItem, QueueItemStatus, QueueStats, Timestamp};
use ufc::state;

fn fmt(mime: &str, name: &str) -> FormatId {
    FormatId::new(mime, &["x"], name)
}

fn item() -> QueueItem {
    QueueItem::new("in.png".to_string(), "out.jpg".to_string(), "image/jpeg".to_string()).unwrap()
}

#[test]
fn format_info_copies_the_format() {
    let info = FormatInfo::from_format(FormatId::new("image/png", &["png"], "PNG"));
    assert_eq!(info.mime, "image/png");
    assert_eq!(info.extensions, vec!["png".to_string()]);
    assert_eq!(info.display_name, "PNG");
}

#[test]
fn queue_status_counts() {
    let stats = QueueStats { total: 7, pending: 1, converting: 2, completed: 3, failed: 1, cancelled: 0, paused: 0 };
    assert_eq!(
        QueueStatus::from_stats(stats),
        QueueStatus { total: 7, pending: 1, converting: 2, completed: 3, failed: 1 }
    );
}

#[test]
fn single_result_reports_success_or_error() {
    let mut done = item();
    done.start();
    done.complete(42, "abc".to_string());
    let ok = ConversionResult::for_single(1, &done, 9);
    assert!(ok.success);
    assert_eq!(ok.bytes_written, Some(42));
    assert_eq!(ok.checksum.as_deref(), Some("abc"));
    assert_eq!(ok.error, None);
    assert_eq!(ok.duration_ms, Some(9));

    let mut bad = item();
    bad.start();
    bad.fail("boom".to_string());
    let err = ConversionResult::for_single(0, &bad, 5);
    assert!(!err.success);
    assert_eq!(err.bytes_written, None);
    assert_eq!(err.checksum, None);
    assert_eq!(err.error.as_deref(), Some("boom"));
    assert_eq!(err.duration_ms, Some(5));
}

#[test]
fn batch_result_shares_the_time() {
    let mut done = item();
    done.complete(3, "c".to_string());
    assert_eq!(done.status, QueueItemStatus::Completed);
    let r = ConversionResult::for_batch_item(&done, 100, 3);
    assert!(r.success);
    assert_eq!(r.bytes_written, Some(3));
    assert_eq!(r.duration_ms, Some(33));

    let pending = item();
    let r = ConversionResult::for_batch_item(&pending, 10, 4);
    assert!(!r.success);
    assert_eq!(r.duration_ms, Some(2));
}

#[test]
fn history_record_keeps_the_entry() {
    let e = state::HistoryEntry {
        input_path: "a.png".to_string(),
        output_path: "a.jpg".to_string(),
        source_format: "image/png".to_string(),
        target_format: "image/jpeg".to_string(),
        success: false,
        bytes_written: None,
        duration_ms: Some(12),
        timestamp: Timestamp { secs: 0, nanos: 0 },
        error: Some("bad".to_string()),
    };
    let r = HistoryEntry::from_entry(&e, "1970-01-01T00:00:00+00:00".to_string());
    assert_eq!(r.input_path, "a.png");
    assert_eq!(r.output_path, "a.jpg");
    assert_eq!(r.source_format, "image/png");
    assert_eq!(r.target_format, "image/jpeg");
    assert!(!r.success);
    assert_eq!(r.duration_ms, Some(12));
    assert_eq!(r.timestamp, "1970-01-01T00:00:00+00:00");
    assert_eq!(r.error.as_deref(), Some("bad"));
}

#[test]
fn listing_orders_by_name_and_drops_neighbouring_repeats() {
    let conversions = vec![
        (fmt("image/png", "PNG"), fmt("image/jpeg", "JPEG")),
        (fmt("image/bmp", "BMP"), fmt("image/png", "PNG")),
        (fmt("image/png", "PNG"), fmt("image/bmp", "BMP")),
        (fmt("text/csv", "CSV"), fmt("application/json", "JSON")),
    ];
    let names: Vec<String> = list_format_infos(conversions).into_iter().map(|f| f.display_name).collect();
    assert_eq!(names, vec!["BMP".to_string(), "CSV".to_string(), "PNG".to_string()]);
}

#[test]
fn listing_keeps_equal_names_in_order_and_repeats_apart() {
    // Two formats share a name: they keep their order, and the MIME type that comes
    // back after another one is listed again.
    let conversions = vec![
        (fmt("a/one", "Same"), fmt("x/y", "Y")),
        (fmt("a/two", "Same"), fmt("x/y", "Y")),
        (fmt("a/one", "Same"), fmt("x/y", "Y")),
        (fmt("a/one", "Alpha"), fmt("x/y", "Y")),
    ];
    let listed: Vec<(String, String)> =
        list_format_infos(conversions).into_iter().map(|f| (f.display_name, f.mime)).collect();
    assert_eq!(
        listed,
        vec![
            ("Alpha".to_string(), "a/one".to_string()),
            ("Same".to_string(), "a/two".to_string()),
            ("Same".to_string(), "a/one".to_string()),
        ]
    );
}

#[test]
fn listing_of_nothing_is_empty() {
    assert!(list_format_infos(Vec::new()).is_empty());
}
