use std::path::{Path, PathBuf};
use ufc::detector::FormatDetector;
use ufc::errors::CoreError;
use ufc::format::FormatId;

#[test]
fn test_detect_png() {
    let detector = FormatDetector::new();
    let header = vec![0x89, 0x50, 0x4E, 0x47, 0x0D, 0x0A, 0x1A, 0x0A];
    let format = detector.detect_by_magic(&header).unwrap();
    assert_eq!(format.mime, "image/png");
}

#[test]
fn test_detect_jpeg() {
    let detector = FormatDetector::new();
    let header = vec![0xFF, 0xD8, 0xFF, 0xE0];
    let format = detector.detect_by_magic(&header).unwrap();
    assert_eq!(format.mime, "image/jpeg");
}

#[test]
fn test_detect_pdf() {
    let detector = FormatDetector::new();
    let header = b"%PDF-1.4".to_vec();
    let format = detector.detect_by_magic(&header).unwrap();
    assert_eq!(format.mime, "application/pdf");
}

#[test]
fn test_detect_by_extension() {
    let detector = FormatDetector::new();
    let path = PathBuf::from("photo.jpg");
    let format = detector.detect_by_extension(&path).unwrap();
    assert_eq!(format.mime, "image/jpeg");
}

#[test]
fn test_detect_zip() {
    let detector = FormatDetector::new();
    let header = b"PK\x03\x04".to_vec();
    let format = detector.detect_by_magic(&header).unwrap();
    assert_eq!(format.mime, "application/zip");
}

#[test]
fn extension_lookup_ignores_case() {
    let detector = FormatDetector::new();
    let format = detector.detect_by_extension(Path::new("SCAN.PDF")).unwrap();
    assert_eq!(format.mime, "application/pdf");
}

#[test]
fn magic_bytes_win_over_extension() {
    let detector = FormatDetector::new();
    let header = [0x89, 0x50, 0x4E, 0x47, 0x0D, 0x0A, 0x1A, 0x0A];
    let format = detector.detect(Path::new("misnamed.jpg"), &header).unwrap();
    assert_eq!(format.mime, "image/png");
}

#[test]
fn extension_used_when_no_signature_matches() {
    let detector = FormatDetector::new();
    let format = detector.detect(Path::new("notes.md"), b"# Title").unwrap();
    assert_eq!(format.mime, "text/markdown");
}

#[test]
fn unknown_file_fails_detection() {
    let detector = FormatDetector::new();
    let result = detector.detect(Path::new("mystery"), b"\x00\x01\x02");
    match result {
        Err(CoreError::DetectionFailed { reason }) => {
            assert_eq!(reason, "Could not detect format for: mystery");
        }
        _ => panic!("expected a detection failure"),
    }
}

#[test]
fn short_header_matches_nothing() {
    let detector = FormatDetector::new();
    assert!(detector.detect_by_magic(&[0x89, 0x50]).is_none());
}

#[test]
fn registered_signature_is_tried_after_builtin_ones() {
    let mut detector = FormatDetector::new();
    let custom = FormatId::new("application/x-custom", &["cst"], "Custom");
    detector.register_magic(0, b"CST1".to_vec(), custom);
    let format = detector.detect_by_magic(b"CST1rest").unwrap();
    assert_eq!(format.mime, "application/x-custom");
    let format = detector.detect_by_magic(b"%PDF-1.7").unwrap();
    assert_eq!(format.mime, "application/pdf");
}

#[test]
fn registered_extension_replaces_earlier_one() {
    let mut detector = FormatDetector::new();
    let custom = FormatId::new("application/x-custom-jpeg", &["JPG"], "Custom");
    detector.register_extensions(&custom);
    let format = detector.lookup_extension("jpg").unwrap();
    assert_eq!(format.mime, "application/x-custom-jpeg");
}
