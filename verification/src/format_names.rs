//! Short format names, as given on a command line, and the MIME types they stand for.
use vstd::prelude::*;
use crate::text::{lowercase, to_lowercase, str_eq, is_ascii_text, ascii_lowercase};

verus! {

/// The MIME type a lower-cased short format name stands for; unknown names stand
/// for "application/octet-stream".
pub open spec fn mime_of_name(name: Seq<char>) -> Seq<char> {
    if name == "png"@ {
        "image/png"@
    } else if name == "jpg"@ || name == "jpeg"@ {
        "image/jpeg"@
    } else if name == "webp"@ {
        "image/webp"@
    } else if name == "bmp"@ {
        "image/bmp"@
    } else if name == "tiff"@ || name == "tif"@ {
        "image/tiff"@
    } else if name == "gif"@ {
        "image/gif"@
    } else if name == "avif"@ {
        "image/avif"@
    } else if name == "ico"@ {
        "image/x-icon"@
    } else if name == "pdf"@ {
        "application/pdf"@
    } else if name == "docx"@ {
        "application/vnd.openxmlformats-officedocument.wordprocessingml.document"@
    } else if name == "html"@ || name == "htm"@ {
        "text/html"@
    } else if name == "md"@ || name == "markdown"@ {
        "text/markdown"@
    } else if name == "txt"@ {
        "text/plain"@
    } else if name == "wav"@ {
        "audio/wav"@
    } else if name == "flac"@ {
        "audio/flac"@
    } else if name == "mp3"@ {
        "audio/mpeg"@
    } else if name == "aac"@ || name == "m4a"@ {
        "audio/aac"@
    } else if name == "ogg"@ {
        "audio/ogg"@
    } else if name == "opus"@ {
        "audio/opus"@
    } else if name == "mp4"@ {
        "video/mp4"@
    } else if name == "webm"@ {
        "video/webm"@
    } else if name == "mkv"@ {
        "video/x-matroska"@
    } else if name == "avi"@ {
        "video/x-msvideo"@
    } else if name == "zip"@ {
        "application/zip"@
    } else if name == "tar"@ {
        "application/x-tar"@
    } else if name == "gz"@ || name == "tgz"@ {
        "application/gzip"@
    } else if name == "csv"@ {
        "text/csv"@
    } else if name == "json"@ {
        "application/json"@
    } else if name == "xml"@ {
        "application/xml"@
    } else if name == "yaml"@ || name == "yml"@ {
        "application/x-yaml"@
    } else {
        "application/octet-stream"@
    }
}

/// The MIME type for a short format name such as "png" or "JPG" (case is ignored);
/// unknown names give "application/octet-stream".
pub fn format_to_mime(format: &str) -> (r: String)
    ensures
        r@ == mime_of_name(lowercase(format@)),
        is_ascii_text(format@) ==> r@ == mime_of_name(ascii_lowercase(format@)),
{
    let name = to_lowercase(format);
    mime_for_name(name.as_str())
}

/// The MIME type for a lower-case short format name.
pub fn mime_for_name(n: &str) -> (r: String)
    ensures
        r@ == mime_of_name(n@),
{
    let mime: &str = if str_eq(n, "png") {
        "image/png"
    } else if str_eq(n, "jpg") || str_eq(n, "jpeg") {
        "image/jpeg"
    } else if str_eq(n, "webp") {
        "image/webp"
    } else if str_eq(n, "bmp") {
        "image/bmp"
    } else if str_eq(n, "tiff") || str_eq(n, "tif") {
        "image/tiff"
    } else if str_eq(n, "gif") {
        "image/gif"
    } else if str_eq(n, "avif") {
        "image/avif"
    } else if str_eq(n, "ico") {
        "image/x-icon"
    } else if str_eq(n, "pdf") {
        "application/pdf"
    } else if str_eq(n, "docx") {
        "application/vnd.openxmlformats-officedocument.wordprocessingml.document"
    } else if str_eq(n, "html") || str_eq(n, "htm") {
        "text/html"
    } else if str_eq(n, "md") || str_eq(n, "markdown") {
        "text/markdown"
    } else if str_eq(n, "txt") {
        "text/plain"
    } else if str_eq(n, "wav") {
        "audio/wav"
    } else if str_eq(n, "flac") {
        "audio/flac"
    } else if str_eq(n, "mp3") {
        "audio/mpeg"
    } else if str_eq(n, "aac") || str_eq(n, "m4a") {
        "audio/aac"
    } else if str_eq(n, "ogg") {
        "audio/ogg"
    } else if str_eq(n, "opus") {
        "audio/opus"
    } else if str_eq(n, "mp4") {
        "video/mp4"
    } else if str_eq(n, "webm") {
        "video/webm"
    } else if str_eq(n, "mkv") {
        "video/x-matroska"
    } else if str_eq(n, "avi") {
        "video/x-msvideo"
    } else if str_eq(n, "zip") {
        "application/zip"
    } else if str_eq(n, "tar") {
        "application/x-tar"
    } else if str_eq(n, "gz") || str_eq(n, "tgz") {
        "application/gzip"
    } else if str_eq(n, "csv") {
        "text/csv"
    } else if str_eq(n, "json") {
        "application/json"
    } else if str_eq(n, "xml") {
        "application/xml"
    } else if str_eq(n, "yaml") || str_eq(n, "yml") {
        "application/x-yaml"
    } else {
        "application/octet-stream"
    };
    String::from_str(mime)
}

} // verus!
