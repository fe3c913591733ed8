//! What the engine's fixed tables promise: the signatures a new detector knows, the
//! intermediate representation each kind of format goes through, how plugins are
//! ranked, how plain text is drawn from a document and how large a raw image is.
use vstd::prelude::*;
use crate::detector::{first_magic_match, signature_matches};
use crate::builtin_formats::{builtin_magic, builtin_detector, format_spec};
use crate::format::{FormatSpec, ManifestSpec};
use crate::text::has_prefix;
use crate::router::{ir_type_of, best_path, decoders_of, encoders_of};
use crate::laws::law_best_path_has_highest_fidelity;
use crate::registry::{is_best, beats};
use crate::ir::image::{ImageIR, ColorSpace, BitDepth, channels_of, raw_size};
use crate::ir::document::{InlineRun, TextRun, Paragraph, Block, runs_text, run_text, document_text};

verus! {

// ---------------------------------------------------------------- detection

/// Whether `header` starts with the bytes of `sig`.
pub open spec fn begins_with(header: Seq<u8>, sig: Seq<u8>) -> bool {
    sig.len() <= header.len() && header.subrange(0, sig.len() as int) == sig
}

/// Whether a new detector takes `header` for a format with MIME type `mime` that
/// lists the extension `ext`: what its `detect_by_magic` returns, and so what its
/// `detect` returns whatever the path.
pub open spec fn detected_as(header: Seq<u8>, mime: Seq<char>, ext: Seq<char>) -> bool {
    first_magic_match(builtin_detector().magic, header) matches Some(f) && f.mime == mime && f.extensions.contains(ext)
}

/// Whether `p` and `q` agree at every position from `i` on where both have a byte.
pub open spec fn agree_from(p: Seq<u8>, q: Seq<u8>, i: int) -> bool
    decreases p.len() - i,
{
    if i < 0 || i >= p.len() || i >= q.len() {
        true
    } else {
        p[i] == q[i] && agree_from(p, q, i + 1)
    }
}

/// Whether each of the first `j` signatures sits at offset 0 and disagrees with `sig`
/// at some position.
pub open spec fn distinct_before(magic: Seq<(usize, Seq<u8>, FormatSpec)>, j: int, sig: Seq<u8>) -> bool
    decreases j,
{
    if j <= 0 {
        true
    } else {
        distinct_before(magic, j - 1, sig) && magic[j - 1].0 == 0 && !agree_from(magic[j - 1].1, sig, 0)
    }
}

/// A header that begins with `b` matches no signature that disagrees with `b`.
proof fn lemma_disagree_no_match(h: Seq<u8>, s: Seq<u8>, b: Seq<u8>, i: int)
    requires
        0 <= i,
        begins_with(h, b),
        !agree_from(s, b, i),
    ensures
        !signature_matches(h, 0, s),
    decreases s.len() - i,
{
    if signature_matches(h, 0, s) {
        assert(h.subrange(0, b.len() as int)[i] == h[i]);
        assert(h.subrange(0, s.len() as int)[i] == h[i]);
        if s[i] == b[i] {
            lemma_disagree_no_match(h, s, b, i + 1);
        }
    }
}

proof fn lemma_distinct_before(magic: Seq<(usize, Seq<u8>, FormatSpec)>, j: int, sig: Seq<u8>, k: int)
    requires
        distinct_before(magic, j, sig),
        0 <= k < j,
    ensures
        magic[k].0 == 0,
        !agree_from(magic[k].1, sig, 0),
    decreases j,
{
    if k < j - 1 {
        lemma_distinct_before(magic, j - 1, sig, k);
    }
}

/// Where every earlier signature disagrees with the `j`-th, a header that begins with
/// the `j`-th is taken for its format.
proof fn lemma_first_match_at(magic: Seq<(usize, Seq<u8>, FormatSpec)>, h: Seq<u8>, j: int)
    requires
        0 <= j < magic.len(),
        magic[j].0 == 0,
        begins_with(h, magic[j].1),
        forall|k: int| 0 <= k < j ==> (#[trigger] magic[k]).0 == 0 && !agree_from(magic[k].1, magic[j].1, 0),
    ensures
        first_magic_match(magic, h) == Some(magic[j].2),
    decreases j,
{
    if j > 0 {
        lemma_disagree_no_match(h, magic[0].1, magic[j].1, 0);
        let rest = magic.drop_first();
        assert(rest[j - 1] == magic[j]);
        assert forall|k: int| 0 <= k < j - 1 implies (#[trigger] rest[k]).0 == 0 && !agree_from(rest[k].1, rest[j - 1].1, 0) by {
            assert(rest[k] == magic[k + 1]);
        }
        lemma_first_match_at(rest, h, j - 1);
    }
}

/// Where the first `j` signatures all disagree with the `j`-th, a header that begins
/// with the `j`-th is taken for its format.
proof fn lemma_signature_decides(magic: Seq<(usize, Seq<u8>, FormatSpec)>, h: Seq<u8>, j: int)
    requires
        0 <= j < magic.len(),
        magic[j].0 == 0,
        begins_with(h, magic[j].1),
        distinct_before(magic, j, magic[j].1),
    ensures
        first_magic_match(magic, h) == Some(magic[j].2),
{
    assert forall|k: int| 0 <= k < j implies (#[trigger] magic[k]).0 == 0 && !agree_from(magic[k].1, magic[j].1, 0) by {
        lemma_distinct_before(magic, j, magic[j].1, k);
    }
    lemma_first_match_at(magic, h, j);
}

proof fn lemma_signature_0(h: Seq<u8>)
    ensures
        begins_with(h, seq![137u8, 80u8, 78u8, 71u8, 13u8, 10u8, 26u8, 10u8]) ==> detected_as(h, "image/png"@, "png"@),
{
    if begins_with(h, seq![137u8, 80u8, 78u8, 71u8, 13u8, 10u8, 26u8, 10u8]) {
        assert(builtin_magic()[0] == (0usize, seq![137u8, 80u8, 78u8, 71u8, 13u8, 10u8, 26u8, 10u8], format_spec("image/png"@, seq!["png"@], "PNG"@)));
        assert(distinct_before(builtin_magic(), 0, seq![137u8, 80u8, 78u8, 71u8, 13u8, 10u8, 26u8, 10u8])) by {
            reveal_with_fuel(distinct_before, 1);
            reveal_with_fuel(agree_from, 8);
        }
        lemma_signature_decides(builtin_magic(), h, 0);
        assert(builtin_magic()[0].2.extensions[0] == "png"@);
    }
}

proof fn lemma_signature_1(h: Seq<u8>)
    ensures
        begins_with(h, seq![255u8, 216u8, 255u8]) ==> detected_as(h, "image/jpeg"@, "jpg"@),
{
    if begins_with(h, seq![255u8, 216u8, 255u8]) {
        assert(builtin_magic()[1] == (0usize, seq![255u8, 216u8, 255u8], format_spec("image/jpeg"@, seq!["jpg"@, "jpeg"@], "JPEG"@)));
        assert(distinct_before(builtin_magic(), 1, seq![255u8, 216u8, 255u8])) by {
            reveal_with_fuel(distinct_before, 2);
            reveal_with_fuel(agree_from, 8);
        }
        lemma_signature_decides(builtin_magic(), h, 1);
        assert(builtin_magic()[1].2.extensions[0] == "jpg"@);
    }
}

proof fn lemma_signature_2(h: Seq<u8>)
    ensures
        begins_with(h, seq![71u8, 73u8, 70u8, 56u8, 55u8, 97u8]) ==> detected_as(h, "image/gif"@, "gif"@),
{
    if begins_with(h, seq![71u8, 73u8, 70u8, 56u8, 55u8, 97u8]) {
        assert(builtin_magic()[2] == (0usize, seq![71u8, 73u8, 70u8, 56u8, 55u8, 97u8], format_spec("image/gif"@, seq!["gif"@], "GIF"@)));
        assert(distinct_before(builtin_magic(), 2, seq![71u8, 73u8, 70u8, 56u8, 55u8, 97u8])) by {
            reveal_with_fuel(distinct_before, 3);
            reveal_with_fuel(agree_from, 8);
        }
        lemma_signature_decides(builtin_magic(), h, 2);
        assert(builtin_magic()[2].2.extensions[0] == "gif"@);
    }
}

proof fn lemma_signature_3(h: Seq<u8>)
    ensures
        begins_with(h, seq![71u8, 73u8, 70u8, 56u8, 57u8, 97u8]) ==> detected_as(h, "image/gif"@, "gif"@),
{
    if begins_with(h, seq![71u8, 73u8, 70u8, 56u8, 57u8, 97u8]) {
        assert(builtin_magic()[3] == (0usize, seq![71u8, 73u8, 70u8, 56u8, 57u8, 97u8], format_spec("image/gif"@, seq!["gif"@], "GIF"@)));
        assert(distinct_before(builtin_magic(), 3, seq![71u8, 73u8, 70u8, 56u8, 57u8, 97u8])) by {
            reveal_with_fuel(distinct_before, 4);
            reveal_with_fuel(agree_from, 8);
        }
        lemma_signature_decides(builtin_magic(), h, 3);
        assert(builtin_magic()[3].2.extensions[0] == "gif"@);
    }
}

proof fn lemma_signature_4(h: Seq<u8>)
    ensures
        begins_with(h, seq![66u8, 77u8]) ==> detected_as(h, "image/bmp"@, "bmp"@),
{
    if begins_with(h, seq![66u8, 77u8]) {
        assert(builtin_magic()[4] == (0usize, seq![66u8, 77u8], format_spec("image/bmp"@, seq!["bmp"@], "BMP"@)));
        assert(distinct_before(builtin_magic(), 4, seq![66u8, 77u8])) by {
            reveal_with_fuel(distinct_before, 5);
            reveal_with_fuel(agree_from, 8);
        }
        lemma_signature_decides(builtin_magic(), h, 4);
        assert(builtin_magic()[4].2.extensions[0] == "bmp"@);
    }
}

proof fn lemma_signature_5(h: Seq<u8>)
    ensures
        begins_with(h, seq![82u8, 73u8, 70u8, 70u8]) ==> detected_as(h, "image/webp"@, "webp"@),
{
    if begins_with(h, seq![82u8, 73u8, 70u8, 70u8]) {
        assert(builtin_magic()[5] == (0usize, seq![82u8, 73u8, 70u8, 70u8], format_spec("image/webp"@, seq!["webp"@], "WebP"@)));
        assert(distinct_before(builtin_magic(), 5, seq![82u8, 73u8, 70u8, 70u8])) by {
            reveal_with_fuel(distinct_before, 6);
            reveal_with_fuel(agree_from, 8);
        }
        lemma_signature_decides(builtin_magic(), h, 5);
        assert(builtin_magic()[5].2.extensions[0] == "webp"@);
    }
}

proof fn lemma_signature_6(h: Seq<u8>)
    ensures
        begins_with(h, seq![73u8, 73u8, 42u8, 0u8]) ==> detected_as(h, "image/tiff"@, "tiff"@),
{
    if begins_with(h, seq![73u8, 73u8, 42u8, 0u8]) {
        assert(builtin_magic()[6] == (0usize, seq![73u8, 73u8, 42u8, 0u8], format_spec("image/tiff"@, seq!["tiff"@, "tif"@], "TIFF"@)));
        assert(distinct_before(builtin_magic(), 6, seq![73u8, 73u8, 42u8, 0u8])) by {
            reveal_with_fuel(distinct_before, 7);
            reveal_with_fuel(agree_from, 8);
        }
        lemma_signature_decides(builtin_magic(), h, 6);
        assert(builtin_magic()[6].2.extensions[0] == "tiff"@);
    }
}

proof fn lemma_signature_7(h: Seq<u8>)
    ensures
        begins_with(h, seq![77u8, 77u8, 0u8, 42u8]) ==> detected_as(h, "image/tiff"@, "tiff"@),
{
    if begins_with(h, seq![77u8, 77u8, 0u8, 42u8]) {
        assert(builtin_magic()[7] == (0usize, seq![77u8, 77u8, 0u8, 42u8], format_spec("image/tiff"@, seq!["tiff"@, "tif"@], "TIFF"@)));
        assert(distinct_before(builtin_magic(), 7, seq![77u8, 77u8, 0u8, 42u8])) by {
            reveal_with_fuel(distinct_before, 8);
            reveal_with_fuel(agree_from, 8);
        }
        lemma_signature_decides(builtin_magic(), h, 7);
        assert(builtin_magic()[7].2.extensions[0] == "tiff"@);
    }
}

proof fn lemma_signature_8(h: Seq<u8>)
    ensures
        begins_with(h, seq![0u8, 0u8, 1u8, 0u8]) ==> detected_as(h, "image/x-icon"@, "ico"@),
{
    if begins_with(h, seq![0u8, 0u8, 1u8, 0u8]) {
        assert(builtin_magic()[8] == (0usize, seq![0u8, 0u8, 1u8, 0u8], format_spec("image/x-icon"@, seq!["ico"@], "ICO"@)));
        assert(distinct_before(builtin_magic(), 8, seq![0u8, 0u8, 1u8, 0u8])) by {
            reveal_with_fuel(distinct_before, 9);
            reveal_with_fuel(agree_from, 8);
        }
        lemma_signature_decides(builtin_magic(), h, 8);
        assert(builtin_magic()[8].2.extensions[0] == "ico"@);
    }
}

proof fn lemma_signature_9(h: Seq<u8>)
    ensures
        begins_with(h, seq![113u8, 111u8, 105u8, 102u8]) ==> detected_as(h, "image/qoi"@, "qoi"@),
{
    if begins_with(h, seq![113u8, 111u8, 105u8, 102u8]) {
        assert(builtin_magic()[9] == (0usize, seq![113u8, 111u8, 105u8, 102u8], format_spec("image/qoi"@, seq!["qoi"@], "QOI"@)));
        assert(distinct_before(builtin_magic(), 9, seq![113u8, 111u8, 105u8, 102u8])) by {
            reveal_with_fuel(distinct_before, 10);
            reveal_with_fuel(agree_from, 8);
        }
        lemma_signature_decides(builtin_magic(), h, 9);
        assert(builtin_magic()[9].2.extensions[0] == "qoi"@);
    }
}

proof fn lemma_signature_11(h: Seq<u8>)
    ensures
        begins_with(h, seq![102u8, 76u8, 97u8, 67u8]) ==> detected_as(h, "audio/flac"@, "flac"@),
{
    if begins_with(h, seq![102u8, 76u8, 97u8, 67u8]) {
        assert(builtin_magic()[11] == (0usize, seq![102u8, 76u8, 97u8, 67u8], format_spec("audio/flac"@, seq!["flac"@], "FLAC"@)));
        assert(distinct_before(builtin_magic(), 11, seq![102u8, 76u8, 97u8, 67u8])) by {
            reveal_with_fuel(distinct_before, 12);
            reveal_with_fuel(agree_from, 8);
        }
        lemma_signature_decides(builtin_magic(), h, 11);
        assert(builtin_magic()[11].2.extensions[0] == "flac"@);
    }
}

proof fn lemma_signature_12(h: Seq<u8>)
    ensures
        begins_with(h, seq![255u8, 251u8]) ==> detected_as(h, "audio/mpeg"@, "mp3"@),
{
    if begins_with(h, seq![255u8, 251u8]) {
        assert(builtin_magic()[12] == (0usize, seq![255u8, 251u8], format_spec("audio/mpeg"@, seq!["mp3"@], "MP3"@)));
        assert(distinct_before(builtin_magic(), 12, seq![255u8, 251u8])) by {
            reveal_with_fuel(distinct_before, 13);
            reveal_with_fuel(agree_from, 8);
        }
        lemma_signature_decides(builtin_magic(), h, 12);
        assert(builtin_magic()[12].2.extensions[0] == "mp3"@);
    }
}

proof fn lemma_signature_13(h: Seq<u8>)
    ensures
        begins_with(h, seq![255u8, 243u8]) ==> detected_as(h, "audio/mpeg"@, "mp3"@),
{
    if begins_with(h, seq![255u8, 243u8]) {
        assert(builtin_magic()[13] == (0usize, seq![255u8, 243u8], format_spec("audio/mpeg"@, seq!["mp3"@], "MP3"@)));
        assert(distinct_before(builtin_magic(), 13, seq![255u8, 243u8])) by {
            reveal_with_fuel(distinct_before, 14);
            reveal_with_fuel(agree_from, 8);
        }
        lemma_signature_decides(builtin_magic(), h, 13);
        assert(builtin_magic()[13].2.extensions[0] == "mp3"@);
    }
}

proof fn lemma_signature_14(h: Seq<u8>)
    ensures
        begins_with(h, seq![255u8, 242u8]) ==> detected_as(h, "audio/mpeg"@, "mp3"@),
{
    if begins_with(h, seq![255u8, 242u8]) {
        assert(builtin_magic()[14] == (0usize, seq![255u8, 242u8], format_spec("audio/mpeg"@, seq!["mp3"@], "MP3"@)));
        assert(distinct_before(builtin_magic(), 14, seq![255u8, 242u8])) by {
            reveal_with_fuel(distinct_before, 15);
            reveal_with_fuel(agree_from, 8);
        }
        lemma_signature_decides(builtin_magic(), h, 14);
        assert(builtin_magic()[14].2.extensions[0] == "mp3"@);
    }
}

proof fn lemma_signature_15(h: Seq<u8>)
    ensures
        begins_with(h, seq![73u8, 68u8, 51u8]) ==> detected_as(h, "audio/mpeg"@, "mp3"@),
{
    if begins_with(h, seq![73u8, 68u8, 51u8]) {
        assert(builtin_magic()[15] == (0usize, seq![73u8, 68u8, 51u8], format_spec("audio/mpeg"@, seq!["mp3"@], "MP3"@)));
        assert(distinct_before(builtin_magic(), 15, seq![73u8, 68u8, 51u8])) by {
            reveal_with_fuel(distinct_before, 16);
            reveal_with_fuel(agree_from, 8);
        }
        lemma_signature_decides(builtin_magic(), h, 15);
        assert(builtin_magic()[15].2.extensions[0] == "mp3"@);
    }
}

proof fn lemma_signature_16(h: Seq<u8>)
    ensures
        begins_with(h, seq![79u8, 103u8, 103u8, 83u8]) ==> detected_as(h, "audio/ogg"@, "ogg"@),
{
    if begins_with(h, seq![79u8, 103u8, 103u8, 83u8]) {
        assert(builtin_magic()[16] == (0usize, seq![79u8, 103u8, 103u8, 83u8], format_spec("audio/ogg"@, seq!["ogg"@, "oga"@, "opus"@], "OGG"@)));
        assert(distinct_before(builtin_magic(), 16, seq![79u8, 103u8, 103u8, 83u8])) by {
            reveal_with_fuel(distinct_before, 17);
            reveal_with_fuel(agree_from, 8);
        }
        lemma_signature_decides(builtin_magic(), h, 16);
        assert(builtin_magic()[16].2.extensions[0] == "ogg"@);
    }
}

proof fn lemma_signature_17(h: Seq<u8>)
    ensures
        begins_with(h, seq![70u8, 79u8, 82u8, 77u8]) ==> detected_as(h, "audio/aiff"@, "aiff"@),
{
    if begins_with(h, seq![70u8, 79u8, 82u8, 77u8]) {
        assert(builtin_magic()[17] == (0usize, seq![70u8, 79u8, 82u8, 77u8], format_spec("audio/aiff"@, seq!["aiff"@, "aif"@], "AIFF"@)));
        assert(distinct_before(builtin_magic(), 17, seq![70u8, 79u8, 82u8, 77u8])) by {
            reveal_with_fuel(distinct_before, 18);
            reveal_with_fuel(agree_from, 8);
        }
        lemma_signature_decides(builtin_magic(), h, 17);
        assert(builtin_magic()[17].2.extensions[0] == "aiff"@);
    }
}

proof fn lemma_signature_18(h: Seq<u8>)
    ensures
        begins_with(h, seq![26u8, 69u8, 223u8, 163u8]) ==> detected_as(h, "video/x-matroska"@, "mkv"@),
{
    if begins_with(h, seq![26u8, 69u8, 223u8, 163u8]) {
        assert(builtin_magic()[18] == (0usize, seq![26u8, 69u8, 223u8, 163u8], format_spec("video/x-matroska"@, seq!["mkv"@, "webm"@], "Matroska/WebM"@)));
        assert(distinct_before(builtin_magic(), 18, seq![26u8, 69u8, 223u8, 163u8])) by {
            reveal_with_fuel(distinct_before, 19);
            reveal_with_fuel(agree_from, 8);
        }
        lemma_signature_decides(builtin_magic(), h, 18);
        assert(builtin_magic()[18].2.extensions[0] == "mkv"@);
    }
}

proof fn lemma_signature_20(h: Seq<u8>)
    ensures
        begins_with(h, seq![37u8, 80u8, 68u8, 70u8]) ==> detected_as(h, "application/pdf"@, "pdf"@),
{
    if begins_with(h, seq![37u8, 80u8, 68u8, 70u8]) {
        assert(builtin_magic()[20] == (0usize, seq![37u8, 80u8, 68u8, 70u8], format_spec("application/pdf"@, seq!["pdf"@], "PDF"@)));
        assert(distinct_before(builtin_magic(), 20, seq![37u8, 80u8, 68u8, 70u8])) by {
            reveal_with_fuel(distinct_before, 21);
            reveal_with_fuel(agree_from, 8);
        }
        lemma_signature_decides(builtin_magic(), h, 20);
        assert(builtin_magic()[20].2.extensions[0] == "pdf"@);
    }
}

proof fn lemma_signature_21(h: Seq<u8>)
    ensures
        begins_with(h, seq![123u8, 92u8, 114u8, 116u8, 102u8]) ==> detected_as(h, "application/rtf"@, "rtf"@),
{
    if begins_with(h, seq![123u8, 92u8, 114u8, 116u8, 102u8]) {
        assert(builtin_magic()[21] == (0usize, seq![123u8, 92u8, 114u8, 116u8, 102u8], format_spec("application/rtf"@, seq!["rtf"@], "RTF"@)));
        assert(distinct_before(builtin_magic(), 21, seq![123u8, 92u8, 114u8, 116u8, 102u8])) by {
            reveal_with_fuel(distinct_before, 22);
            reveal_with_fuel(agree_from, 8);
        }
        lemma_signature_decides(builtin_magic(), h, 21);
        assert(builtin_magic()[21].2.extensions[0] == "rtf"@);
    }
}

proof fn lemma_signature_22(h: Seq<u8>)
    ensures
        begins_with(h, seq![80u8, 75u8, 3u8, 4u8]) ==> detected_as(h, "application/zip"@, "zip"@),
{
    if begins_with(h, seq![80u8, 75u8, 3u8, 4u8]) {
        assert(builtin_magic()[22] == (0usize, seq![80u8, 75u8, 3u8, 4u8], format_spec("application/zip"@, seq!["zip"@, "jar"@, "docx"@, "xlsx"@, "pptx"@], "ZIP"@)));
        assert(distinct_before(builtin_magic(), 22, seq![80u8, 75u8, 3u8, 4u8])) by {
            reveal_with_fuel(distinct_before, 23);
            reveal_with_fuel(agree_from, 8);
        }
        lemma_signature_decides(builtin_magic(), h, 22);
        assert(builtin_magic()[22].2.extensions[0] == "zip"@);
    }
}

proof fn lemma_signature_23(h: Seq<u8>)
    ensures
        begins_with(h, seq![31u8, 139u8]) ==> detected_as(h, "application/gzip"@, "gz"@),
{
    if begins_with(h, seq![31u8, 139u8]) {
        assert(builtin_magic()[23] == (0usize, seq![31u8, 139u8], format_spec("application/gzip"@, seq!["gz"@, "tgz"@], "Gzip"@)));
        assert(distinct_before(builtin_magic(), 23, seq![31u8, 139u8])) by {
            reveal_with_fuel(distinct_before, 24);
            reveal_with_fuel(agree_from, 8);
        }
        lemma_signature_decides(builtin_magic(), h, 23);
        assert(builtin_magic()[23].2.extensions[0] == "gz"@);
    }
}

proof fn lemma_signature_24(h: Seq<u8>)
    ensures
        begins_with(h, seq![55u8, 122u8, 188u8, 175u8, 39u8, 28u8]) ==> detected_as(h, "application/x-7z-compressed"@, "7z"@),
{
    if begins_with(h, seq![55u8, 122u8, 188u8, 175u8, 39u8, 28u8]) {
        assert(builtin_magic()[24] == (0usize, seq![55u8, 122u8, 188u8, 175u8, 39u8, 28u8], format_spec("application/x-7z-compressed"@, seq!["7z"@], "7-Zip"@)));
        assert(distinct_before(builtin_magic(), 24, seq![55u8, 122u8, 188u8, 175u8, 39u8, 28u8])) by {
            reveal_with_fuel(distinct_before, 25);
            reveal_with_fuel(agree_from, 8);
        }
        lemma_signature_decides(builtin_magic(), h, 24);
        assert(builtin_magic()[24].2.extensions[0] == "7z"@);
    }
}

proof fn lemma_signature_25(h: Seq<u8>)
    ensures
        begins_with(h, seq![0u8, 1u8, 0u8, 0u8, 0u8]) ==> detected_as(h, "font/ttf"@, "ttf"@),
{
    if begins_with(h, seq![0u8, 1u8, 0u8, 0u8, 0u8]) {
        assert(builtin_magic()[25] == (0usize, seq![0u8, 1u8, 0u8, 0u8, 0u8], format_spec("font/ttf"@, seq!["ttf"@], "TrueType"@)));
        assert(distinct_before(builtin_magic(), 25, seq![0u8, 1u8, 0u8, 0u8, 0u8])) by {
            reveal_with_fuel(distinct_before, 26);
            reveal_with_fuel(agree_from, 8);
        }
        lemma_signature_decides(builtin_magic(), h, 25);
        assert(builtin_magic()[25].2.extensions[0] == "ttf"@);
    }
}

proof fn lemma_signature_26(h: Seq<u8>)
    ensures
        begins_with(h, seq![79u8, 84u8, 84u8, 79u8]) ==> detected_as(h, "font/otf"@, "otf"@),
{
    if begins_with(h, seq![79u8, 84u8, 84u8, 79u8]) {
        assert(builtin_magic()[26] == (0usize, seq![79u8, 84u8, 84u8, 79u8], format_spec("font/otf"@, seq!["otf"@], "OpenType"@)));
        assert(distinct_before(builtin_magic(), 26, seq![79u8, 84u8, 84u8, 79u8])) by {
            reveal_with_fuel(distinct_before, 27);
            reveal_with_fuel(agree_from, 8);
        }
        lemma_signature_decides(builtin_magic(), h, 26);
        assert(builtin_magic()[26].2.extensions[0] == "otf"@);
    }
}

proof fn lemma_signature_27(h: Seq<u8>)
    ensures
        begins_with(h, seq![119u8, 79u8, 70u8, 70u8]) ==> detected_as(h, "font/woff"@, "woff"@),
{
    if begins_with(h, seq![119u8, 79u8, 70u8, 70u8]) {
        assert(builtin_magic()[27] == (0usize, seq![119u8, 79u8, 70u8, 70u8], format_spec("font/woff"@, seq!["woff"@], "WOFF"@)));
        assert(distinct_before(builtin_magic(), 27, seq![119u8, 79u8, 70u8, 70u8])) by {
            reveal_with_fuel(distinct_before, 28);
            reveal_with_fuel(agree_from, 8);
        }
        lemma_signature_decides(builtin_magic(), h, 27);
        assert(builtin_magic()[27].2.extensions[0] == "woff"@);
    }
}

proof fn lemma_signature_28(h: Seq<u8>)
    ensures
        begins_with(h, seq![119u8, 79u8, 70u8, 50u8]) ==> detected_as(h, "font/woff2"@, "woff2"@),
{
    if begins_with(h, seq![119u8, 79u8, 70u8, 50u8]) {
        assert(builtin_magic()[28] == (0usize, seq![119u8, 79u8, 70u8, 50u8], format_spec("font/woff2"@, seq!["woff2"@], "WOFF2"@)));
        assert(distinct_before(builtin_magic(), 28, seq![119u8, 79u8, 70u8, 50u8])) by {
            reveal_with_fuel(distinct_before, 29);
            reveal_with_fuel(agree_from, 8);
        }
        lemma_signature_decides(builtin_magic(), h, 28);
        assert(builtin_magic()[28].2.extensions[0] == "woff2"@);
    }
}

/// Every built-in signature identifies its own file type: a header that begins with
/// the signature's bytes is detected as that type's format, under its MIME type and
/// with its usual extension. RIFF is registered for WebP first, so its later
/// registrations for WAV and AVI never decide.
pub proof fn law_builtin_signatures(h: Seq<u8>)
    ensures
        begins_with(h, seq![137u8, 80u8, 78u8, 71u8, 13u8, 10u8, 26u8, 10u8]) ==> detected_as(h, "image/png"@, "png"@),
        begins_with(h, seq![255u8, 216u8, 255u8]) ==> detected_as(h, "image/jpeg"@, "jpg"@),
        begins_with(h, seq![71u8, 73u8, 70u8, 56u8, 55u8, 97u8]) ==> detected_as(h, "image/gif"@, "gif"@),
        begins_with(h, seq![71u8, 73u8, 70u8, 56u8, 57u8, 97u8]) ==> detected_as(h, "image/gif"@, "gif"@),
        begins_with(h, seq![66u8, 77u8]) ==> detected_as(h, "image/bmp"@, "bmp"@),
        begins_with(h, seq![82u8, 73u8, 70u8, 70u8]) ==> detected_as(h, "image/webp"@, "webp"@),
        begins_with(h, seq![73u8, 73u8, 42u8, 0u8]) ==> detected_as(h, "image/tiff"@, "tiff"@),
        begins_with(h, seq![77u8, 77u8, 0u8, 42u8]) ==> detected_as(h, "image/tiff"@, "tiff"@),
        begins_with(h, seq![0u8, 0u8, 1u8, 0u8]) ==> detected_as(h, "image/x-icon"@, "ico"@),
        begins_with(h, seq![113u8, 111u8, 105u8, 102u8]) ==> detected_as(h, "image/qoi"@, "qoi"@),
        begins_with(h, seq![102u8, 76u8, 97u8, 67u8]) ==> detected_as(h, "audio/flac"@, "flac"@),
        begins_with(h, seq![255u8, 251u8]) ==> detected_as(h, "audio/mpeg"@, "mp3"@),
        begins_with(h, seq![255u8, 243u8]) ==> detected_as(h, "audio/mpeg"@, "mp3"@),
        begins_with(h, seq![255u8, 242u8]) ==> detected_as(h, "audio/mpeg"@, "mp3"@),
        begins_with(h, seq![73u8, 68u8, 51u8]) ==> detected_as(h, "audio/mpeg"@, "mp3"@),
        begins_with(h, seq![79u8, 103u8, 103u8, 83u8]) ==> detected_as(h, "audio/ogg"@, "ogg"@),
        begins_with(h, seq![70u8, 79u8, 82u8, 77u8]) ==> detected_as(h, "audio/aiff"@, "aiff"@),
        begins_with(h, seq![26u8, 69u8, 223u8, 163u8]) ==> detected_as(h, "video/x-matroska"@, "mkv"@),
        begins_with(h, seq![37u8, 80u8, 68u8, 70u8]) ==> detected_as(h, "application/pdf"@, "pdf"@),
        begins_with(h, seq![123u8, 92u8, 114u8, 116u8, 102u8]) ==> detected_as(h, "application/rtf"@, "rtf"@),
        begins_with(h, seq![80u8, 75u8, 3u8, 4u8]) ==> detected_as(h, "application/zip"@, "zip"@),
        begins_with(h, seq![31u8, 139u8]) ==> detected_as(h, "application/gzip"@, "gz"@),
        begins_with(h, seq![55u8, 122u8, 188u8, 175u8, 39u8, 28u8]) ==> detected_as(h, "application/x-7z-compressed"@, "7z"@),
        begins_with(h, seq![0u8, 1u8, 0u8, 0u8, 0u8]) ==> detected_as(h, "font/ttf"@, "ttf"@),
        begins_with(h, seq![79u8, 84u8, 84u8, 79u8]) ==> detected_as(h, "font/otf"@, "otf"@),
        begins_with(h, seq![119u8, 79u8, 70u8, 70u8]) ==> detected_as(h, "font/woff"@, "woff"@),
        begins_with(h, seq![119u8, 79u8, 70u8, 50u8]) ==> detected_as(h, "font/woff2"@, "woff2"@),
{
    lemma_signature_0(h);
    lemma_signature_1(h);
    lemma_signature_2(h);
    lemma_signature_3(h);
    lemma_signature_4(h);
    lemma_signature_5(h);
    lemma_signature_6(h);
    lemma_signature_7(h);
    lemma_signature_8(h);
    lemma_signature_9(h);
    lemma_signature_11(h);
    lemma_signature_12(h);
    lemma_signature_13(h);
    lemma_signature_14(h);
    lemma_signature_15(h);
    lemma_signature_16(h);
    lemma_signature_17(h);
    lemma_signature_18(h);
    lemma_signature_20(h);
    lemma_signature_21(h);
    lemma_signature_22(h);
    lemma_signature_23(h);
    lemma_signature_24(h);
    lemma_signature_25(h);
    lemma_signature_26(h);
    lemma_signature_27(h);
    lemma_signature_28(h);
}

// ---------------------------------------------------------------- routing

/// A header of `s` that begins with `p` does not begin with a `q` that differs from
/// `p` at position `i`.
proof fn lemma_prefix_excludes(s: Seq<char>, p: Seq<char>, q: Seq<char>, i: int)
    requires
        has_prefix(s, p),
        0 <= i < p.len(),
        i < q.len(),
        p[i] != q[i],
    ensures
        !has_prefix(s, q),
{
    assert(s.subrange(0, p.len() as int)[i] == s[i]);
    if has_prefix(s, q) {
        assert(s.subrange(0, q.len() as int)[i] == s[i]);
    }
}

proof fn lemma_category_image(mime: Seq<char>)
    ensures
        has_prefix(mime, "image/"@) ==> ir_type_of(mime) == "Image"@,
{
    if has_prefix(mime, "image/"@) {
        reveal_strlit("image/");
    }
}

proof fn lemma_category_audio(mime: Seq<char>)
    ensures
        has_prefix(mime, "audio/"@) ==> ir_type_of(mime) == "Audio"@,
{
    if has_prefix(mime, "audio/"@) {
        reveal_strlit("audio/");
        reveal_strlit("image/");
        lemma_prefix_excludes(mime, "audio/"@, "image/"@, 0);
    }
}

proof fn lemma_category_appogg(mime: Seq<char>)
    ensures
        has_prefix(mime, "application/ogg"@) ==> ir_type_of(mime) == "Audio"@,
{
    if has_prefix(mime, "application/ogg"@) {
        reveal_strlit("application/ogg");
        reveal_strlit("image/");
        lemma_prefix_excludes(mime, "application/ogg"@, "image/"@, 0);
    }
}

proof fn lemma_category_video(mime: Seq<char>)
    ensures
        has_prefix(mime, "video/"@) ==> ir_type_of(mime) == "Video"@,
{
    if has_prefix(mime, "video/"@) {
        reveal_strlit("video/");
        reveal_strlit("image/");
        lemma_prefix_excludes(mime, "video/"@, "image/"@, 0);
        reveal_strlit("audio/");
        lemma_prefix_excludes(mime, "video/"@, "audio/"@, 0);
        reveal_strlit("application/ogg");
        lemma_prefix_excludes(mime, "video/"@, "application/ogg"@, 0);
    }
}

proof fn lemma_category_appjson(mime: Seq<char>)
    ensures
        has_prefix(mime, "application/json"@) ==> ir_type_of(mime) == "Table"@,
{
    if has_prefix(mime, "application/json"@) {
        reveal_strlit("application/json");
        reveal_strlit("image/");
        lemma_prefix_excludes(mime, "application/json"@, "image/"@, 0);
        reveal_strlit("audio/");
        lemma_prefix_excludes(mime, "application/json"@, "audio/"@, 1);
        reveal_strlit("application/ogg");
        lemma_prefix_excludes(mime, "application/json"@, "application/ogg"@, 12);
        reveal_strlit("video/");
        lemma_prefix_excludes(mime, "application/json"@, "video/"@, 0);
    }
}

proof fn lemma_category_textcsv(mime: Seq<char>)
    ensures
        has_prefix(mime, "text/csv"@) ==> ir_type_of(mime) == "Table"@,
{
    if has_prefix(mime, "text/csv"@) {
        reveal_strlit("text/csv");
        reveal_strlit("image/");
        lemma_prefix_excludes(mime, "text/csv"@, "image/"@, 0);
        reveal_strlit("audio/");
        lemma_prefix_excludes(mime, "text/csv"@, "audio/"@, 0);
        reveal_strlit("application/ogg");
        lemma_prefix_excludes(mime, "text/csv"@, "application/ogg"@, 0);
        reveal_strlit("video/");
        lemma_prefix_excludes(mime, "text/csv"@, "video/"@, 0);
    }
}

proof fn lemma_category_appxml(mime: Seq<char>)
    ensures
        has_prefix(mime, "application/xml"@) ==> ir_type_of(mime) == "Table"@,
{
    if has_prefix(mime, "application/xml"@) {
        reveal_strlit("application/xml");
        reveal_strlit("image/");
        lemma_prefix_excludes(mime, "application/xml"@, "image/"@, 0);
        reveal_strlit("audio/");
        lemma_prefix_excludes(mime, "application/xml"@, "audio/"@, 1);
        reveal_strlit("application/ogg");
        lemma_prefix_excludes(mime, "application/xml"@, "application/ogg"@, 12);
        reveal_strlit("video/");
        lemma_prefix_excludes(mime, "application/xml"@, "video/"@, 0);
    }
}

proof fn lemma_category_appx_yaml(mime: Seq<char>)
    ensures
        has_prefix(mime, "application/x-yaml"@) ==> ir_type_of(mime) == "Table"@,
{
    if has_prefix(mime, "application/x-yaml"@) {
        reveal_strlit("application/x-yaml");
        reveal_strlit("image/");
        lemma_prefix_excludes(mime, "application/x-yaml"@, "image/"@, 0);
        reveal_strlit("audio/");
        lemma_prefix_excludes(mime, "application/x-yaml"@, "audio/"@, 1);
        reveal_strlit("application/ogg");
        lemma_prefix_excludes(mime, "application/x-yaml"@, "application/ogg"@, 12);
        reveal_strlit("video/");
        lemma_prefix_excludes(mime, "application/x-yaml"@, "video/"@, 0);
    }
}

proof fn lemma_category_text(mime: Seq<char>)
    ensures
        has_prefix(mime, "text/"@) && !has_prefix(mime, "text/csv"@) ==> ir_type_of(mime) == "Document"@,
{
    if has_prefix(mime, "text/"@) {
        reveal_strlit("text/");
        reveal_strlit("image/");
        lemma_prefix_excludes(mime, "text/"@, "image/"@, 0);
        reveal_strlit("audio/");
        lemma_prefix_excludes(mime, "text/"@, "audio/"@, 0);
        reveal_strlit("application/ogg");
        lemma_prefix_excludes(mime, "text/"@, "application/ogg"@, 0);
        reveal_strlit("video/");
        lemma_prefix_excludes(mime, "text/"@, "video/"@, 0);
        reveal_strlit("application/json");
        lemma_prefix_excludes(mime, "text/"@, "application/json"@, 0);
        reveal_strlit("application/xml");
        lemma_prefix_excludes(mime, "text/"@, "application/xml"@, 0);
        reveal_strlit("application/x-yaml");
        lemma_prefix_excludes(mime, "text/"@, "application/x-yaml"@, 0);
    }
}

proof fn lemma_category_apppdf(mime: Seq<char>)
    ensures
        has_prefix(mime, "application/pdf"@) ==> ir_type_of(mime) == "Document"@,
{
    if has_prefix(mime, "application/pdf"@) {
        reveal_strlit("application/pdf");
        reveal_strlit("image/");
        lemma_prefix_excludes(mime, "application/pdf"@, "image/"@, 0);
        reveal_strlit("audio/");
        lemma_prefix_excludes(mime, "application/pdf"@, "audio/"@, 1);
        reveal_strlit("application/ogg");
        lemma_prefix_excludes(mime, "application/pdf"@, "application/ogg"@, 12);
        reveal_strlit("video/");
        lemma_prefix_excludes(mime, "application/pdf"@, "video/"@, 0);
        reveal_strlit("application/json");
        lemma_prefix_excludes(mime, "application/pdf"@, "application/json"@, 12);
        reveal_strlit("text/csv");
        lemma_prefix_excludes(mime, "application/pdf"@, "text/csv"@, 0);
        reveal_strlit("application/xml");
        lemma_prefix_excludes(mime, "application/pdf"@, "application/xml"@, 12);
        reveal_strlit("application/x-yaml");
        lemma_prefix_excludes(mime, "application/pdf"@, "application/x-yaml"@, 12);
    }
}

proof fn lemma_category_apprtf(mime: Seq<char>)
    ensures
        has_prefix(mime, "application/rtf"@) ==> ir_type_of(mime) == "Document"@,
{
    if has_prefix(mime, "application/rtf"@) {
        reveal_strlit("application/rtf");
        reveal_strlit("image/");
        lemma_prefix_excludes(mime, "application/rtf"@, "image/"@, 0);
        reveal_strlit("audio/");
        lemma_prefix_excludes(mime, "application/rtf"@, "audio/"@, 1);
        reveal_strlit("application/ogg");
        lemma_prefix_excludes(mime, "application/rtf"@, "application/ogg"@, 12);
        reveal_strlit("video/");
        lemma_prefix_excludes(mime, "application/rtf"@, "video/"@, 0);
        reveal_strlit("application/json");
        lemma_prefix_excludes(mime, "application/rtf"@, "application/json"@, 12);
        reveal_strlit("text/csv");
        lemma_prefix_excludes(mime, "application/rtf"@, "text/csv"@, 0);
        reveal_strlit("application/xml");
        lemma_prefix_excludes(mime, "application/rtf"@, "application/xml"@, 12);
        reveal_strlit("application/x-yaml");
        lemma_prefix_excludes(mime, "application/rtf"@, "application/x-yaml"@, 12);
    }
}

proof fn lemma_category_appvnd_openxmlformats(mime: Seq<char>)
    ensures
        has_prefix(mime, "application/vnd.openxmlformats"@) ==> ir_type_of(mime) == "Document"@,
{
    if has_prefix(mime, "application/vnd.openxmlformats"@) {
        reveal_strlit("application/vnd.openxmlformats");
        reveal_strlit("image/");
        lemma_prefix_excludes(mime, "application/vnd.openxmlformats"@, "image/"@, 0);
        reveal_strlit("audio/");
        lemma_prefix_excludes(mime, "application/vnd.openxmlformats"@, "audio/"@, 1);
        reveal_strlit("application/ogg");
        lemma_prefix_excludes(mime, "application/vnd.openxmlformats"@, "application/ogg"@, 12);
        reveal_strlit("video/");
        lemma_prefix_excludes(mime, "application/vnd.openxmlformats"@, "video/"@, 0);
        reveal_strlit("application/json");
        lemma_prefix_excludes(mime, "application/vnd.openxmlformats"@, "application/json"@, 12);
        reveal_strlit("text/csv");
        lemma_prefix_excludes(mime, "application/vnd.openxmlformats"@, "text/csv"@, 0);
        reveal_strlit("application/xml");
        lemma_prefix_excludes(mime, "application/vnd.openxmlformats"@, "application/xml"@, 12);
        reveal_strlit("application/x-yaml");
        lemma_prefix_excludes(mime, "application/vnd.openxmlformats"@, "application/x-yaml"@, 12);
    }
}

proof fn lemma_category_appzip(mime: Seq<char>)
    ensures
        has_prefix(mime, "application/zip"@) ==> ir_type_of(mime) == "Archive"@,
{
    if has_prefix(mime, "application/zip"@) {
        reveal_strlit("application/zip");
        reveal_strlit("image/");
        lemma_prefix_excludes(mime, "application/zip"@, "image/"@, 0);
        reveal_strlit("audio/");
        lemma_prefix_excludes(mime, "application/zip"@, "audio/"@, 1);
        reveal_strlit("application/ogg");
        lemma_prefix_excludes(mime, "application/zip"@, "application/ogg"@, 12);
        reveal_strlit("video/");
        lemma_prefix_excludes(mime, "application/zip"@, "video/"@, 0);
        reveal_strlit("application/json");
        lemma_prefix_excludes(mime, "application/zip"@, "application/json"@, 12);
        reveal_strlit("text/csv");
        lemma_prefix_excludes(mime, "application/zip"@, "text/csv"@, 0);
        reveal_strlit("application/xml");
        lemma_prefix_excludes(mime, "application/zip"@, "application/xml"@, 12);
        reveal_strlit("application/x-yaml");
        lemma_prefix_excludes(mime, "application/zip"@, "application/x-yaml"@, 12);
        reveal_strlit("text/");
        lemma_prefix_excludes(mime, "application/zip"@, "text/"@, 0);
        reveal_strlit("application/pdf");
        lemma_prefix_excludes(mime, "application/zip"@, "application/pdf"@, 12);
        reveal_strlit("application/rtf");
        lemma_prefix_excludes(mime, "application/zip"@, "application/rtf"@, 12);
        reveal_strlit("application/vnd.openxmlformats");
        lemma_prefix_excludes(mime, "application/zip"@, "application/vnd.openxmlformats"@, 12);
    }
}

proof fn lemma_category_appgzip(mime: Seq<char>)
    ensures
        has_prefix(mime, "application/gzip"@) ==> ir_type_of(mime) == "Archive"@,
{
    if has_prefix(mime, "application/gzip"@) {
        reveal_strlit("application/gzip");
        reveal_strlit("image/");
        lemma_prefix_excludes(mime, "application/gzip"@, "image/"@, 0);
        reveal_strlit("audio/");
        lemma_prefix_excludes(mime, "application/gzip"@, "audio/"@, 1);
        reveal_strlit("application/ogg");
        lemma_prefix_excludes(mime, "application/gzip"@, "application/ogg"@, 12);
        reveal_strlit("video/");
        lemma_prefix_excludes(mime, "application/gzip"@, "video/"@, 0);
        reveal_strlit("application/json");
        lemma_prefix_excludes(mime, "application/gzip"@, "application/json"@, 12);
        reveal_strlit("text/csv");
        lemma_prefix_excludes(mime, "application/gzip"@, "text/csv"@, 0);
        reveal_strlit("application/xml");
        lemma_prefix_excludes(mime, "application/gzip"@, "application/xml"@, 12);
        reveal_strlit("application/x-yaml");
        lemma_prefix_excludes(mime, "application/gzip"@, "application/x-yaml"@, 12);
        reveal_strlit("text/");
        lemma_prefix_excludes(mime, "application/gzip"@, "text/"@, 0);
        reveal_strlit("application/pdf");
        lemma_prefix_excludes(mime, "application/gzip"@, "application/pdf"@, 12);
        reveal_strlit("application/rtf");
        lemma_prefix_excludes(mime, "application/gzip"@, "application/rtf"@, 12);
        reveal_strlit("application/vnd.openxmlformats");
        lemma_prefix_excludes(mime, "application/gzip"@, "application/vnd.openxmlformats"@, 12);
    }
}

proof fn lemma_category_appx_tar(mime: Seq<char>)
    ensures
        has_prefix(mime, "application/x-tar"@) ==> ir_type_of(mime) == "Archive"@,
{
    if has_prefix(mime, "application/x-tar"@) {
        reveal_strlit("application/x-tar");
        reveal_strlit("image/");
        lemma_prefix_excludes(mime, "application/x-tar"@, "image/"@, 0);
        reveal_strlit("audio/");
        lemma_prefix_excludes(mime, "application/x-tar"@, "audio/"@, 1);
        reveal_strlit("application/ogg");
        lemma_prefix_excludes(mime, "application/x-tar"@, "application/ogg"@, 12);
        reveal_strlit("video/");
        lemma_prefix_excludes(mime, "application/x-tar"@, "video/"@, 0);
        reveal_strlit("application/json");
        lemma_prefix_excludes(mime, "application/x-tar"@, "application/json"@, 12);
        reveal_strlit("text/csv");
        lemma_prefix_excludes(mime, "application/x-tar"@, "text/csv"@, 0);
        reveal_strlit("application/xml");
        lemma_prefix_excludes(mime, "application/x-tar"@, "application/xml"@, 13);
        reveal_strlit("application/x-yaml");
        lemma_prefix_excludes(mime, "application/x-tar"@, "application/x-yaml"@, 14);
        reveal_strlit("text/");
        lemma_prefix_excludes(mime, "application/x-tar"@, "text/"@, 0);
        reveal_strlit("application/pdf");
        lemma_prefix_excludes(mime, "application/x-tar"@, "application/pdf"@, 12);
        reveal_strlit("application/rtf");
        lemma_prefix_excludes(mime, "application/x-tar"@, "application/rtf"@, 12);
        reveal_strlit("application/vnd.openxmlformats");
        lemma_prefix_excludes(mime, "application/x-tar"@, "application/vnd.openxmlformats"@, 12);
    }
}

proof fn lemma_category_appx_7z(mime: Seq<char>)
    ensures
        has_prefix(mime, "application/x-7z"@) ==> ir_type_of(mime) == "Archive"@,
{
    if has_prefix(mime, "application/x-7z"@) {
        reveal_strlit("application/x-7z");
        reveal_strlit("image/");
        lemma_prefix_excludes(mime, "application/x-7z"@, "image/"@, 0);
        reveal_strlit("audio/");
        lemma_prefix_excludes(mime, "application/x-7z"@, "audio/"@, 1);
        reveal_strlit("application/ogg");
        lemma_prefix_excludes(mime, "application/x-7z"@, "application/ogg"@, 12);
        reveal_strlit("video/");
        lemma_prefix_excludes(mime, "application/x-7z"@, "video/"@, 0);
        reveal_strlit("application/json");
        lemma_prefix_excludes(mime, "application/x-7z"@, "application/json"@, 12);
        reveal_strlit("text/csv");
        lemma_prefix_excludes(mime, "application/x-7z"@, "text/csv"@, 0);
        reveal_strlit("application/xml");
        lemma_prefix_excludes(mime, "application/x-7z"@, "application/xml"@, 13);
        reveal_strlit("application/x-yaml");
        lemma_prefix_excludes(mime, "application/x-7z"@, "application/x-yaml"@, 14);
        reveal_strlit("text/");
        lemma_prefix_excludes(mime, "application/x-7z"@, "text/"@, 0);
        reveal_strlit("application/pdf");
        lemma_prefix_excludes(mime, "application/x-7z"@, "application/pdf"@, 12);
        reveal_strlit("application/rtf");
        lemma_prefix_excludes(mime, "application/x-7z"@, "application/rtf"@, 12);
        reveal_strlit("application/vnd.openxmlformats");
        lemma_prefix_excludes(mime, "application/x-7z"@, "application/vnd.openxmlformats"@, 12);
    }
}

proof fn lemma_category_font(mime: Seq<char>)
    ensures
        has_prefix(mime, "font/"@) ==> ir_type_of(mime) == "Font"@,
{
    if has_prefix(mime, "font/"@) {
        reveal_strlit("font/");
        reveal_strlit("image/");
        lemma_prefix_excludes(mime, "font/"@, "image/"@, 0);
        reveal_strlit("audio/");
        lemma_prefix_excludes(mime, "font/"@, "audio/"@, 0);
        reveal_strlit("application/ogg");
        lemma_prefix_excludes(mime, "font/"@, "application/ogg"@, 0);
        reveal_strlit("video/");
        lemma_prefix_excludes(mime, "font/"@, "video/"@, 0);
        reveal_strlit("application/json");
        lemma_prefix_excludes(mime, "font/"@, "application/json"@, 0);
        reveal_strlit("text/csv");
        lemma_prefix_excludes(mime, "font/"@, "text/csv"@, 0);
        reveal_strlit("application/xml");
        lemma_prefix_excludes(mime, "font/"@, "application/xml"@, 0);
        reveal_strlit("application/x-yaml");
        lemma_prefix_excludes(mime, "font/"@, "application/x-yaml"@, 0);
        reveal_strlit("text/");
        lemma_prefix_excludes(mime, "font/"@, "text/"@, 0);
        reveal_strlit("application/pdf");
        lemma_prefix_excludes(mime, "font/"@, "application/pdf"@, 0);
        reveal_strlit("application/rtf");
        lemma_prefix_excludes(mime, "font/"@, "application/rtf"@, 0);
        reveal_strlit("application/vnd.openxmlformats");
        lemma_prefix_excludes(mime, "font/"@, "application/vnd.openxmlformats"@, 0);
        reveal_strlit("application/zip");
        lemma_prefix_excludes(mime, "font/"@, "application/zip"@, 0);
        reveal_strlit("application/gzip");
        lemma_prefix_excludes(mime, "font/"@, "application/gzip"@, 0);
        reveal_strlit("application/x-tar");
        lemma_prefix_excludes(mime, "font/"@, "application/x-tar"@, 0);
        reveal_strlit("application/x-7z");
        lemma_prefix_excludes(mime, "font/"@, "application/x-7z"@, 0);
    }
}

/// Each MIME category decodes into its own intermediate representation: images into
/// "Image", audio (and Ogg) into "Audio", video into "Video", the structured-data
/// types (JSON, CSV, XML, YAML) into "Table", other text and the office and PDF types
/// into "Document", archives into "Archive", fonts into "Font", and anything else
/// into "Unknown".
pub proof fn law_ir_categories(mime: Seq<char>)
    ensures
        has_prefix(mime, "image/"@) ==> ir_type_of(mime) == "Image"@,
        has_prefix(mime, "audio/"@) ==> ir_type_of(mime) == "Audio"@,
        has_prefix(mime, "application/ogg"@) ==> ir_type_of(mime) == "Audio"@,
        has_prefix(mime, "video/"@) ==> ir_type_of(mime) == "Video"@,
        has_prefix(mime, "application/json"@) ==> ir_type_of(mime) == "Table"@,
        has_prefix(mime, "text/csv"@) ==> ir_type_of(mime) == "Table"@,
        has_prefix(mime, "application/xml"@) ==> ir_type_of(mime) == "Table"@,
        has_prefix(mime, "application/x-yaml"@) ==> ir_type_of(mime) == "Table"@,
        has_prefix(mime, "text/"@) && !has_prefix(mime, "text/csv"@) ==> ir_type_of(mime) == "Document"@,
        has_prefix(mime, "application/pdf"@) ==> ir_type_of(mime) == "Document"@,
        has_prefix(mime, "application/rtf"@) ==> ir_type_of(mime) == "Document"@,
        has_prefix(mime, "application/vnd.openxmlformats"@) ==> ir_type_of(mime) == "Document"@,
        has_prefix(mime, "application/zip"@) ==> ir_type_of(mime) == "Archive"@,
        has_prefix(mime, "application/gzip"@) ==> ir_type_of(mime) == "Archive"@,
        has_prefix(mime, "application/x-tar"@) ==> ir_type_of(mime) == "Archive"@,
        has_prefix(mime, "application/x-7z"@) ==> ir_type_of(mime) == "Archive"@,
        has_prefix(mime, "font/"@) ==> ir_type_of(mime) == "Font"@,
        ({
            &&& !has_prefix(mime, "image/"@)
            &&& !has_prefix(mime, "audio/"@)
            &&& !has_prefix(mime, "application/ogg"@)
            &&& !has_prefix(mime, "video/"@)
            &&& !has_prefix(mime, "application/json"@)
            &&& !has_prefix(mime, "text/csv"@)
            &&& !has_prefix(mime, "application/xml"@)
            &&& !has_prefix(mime, "application/x-yaml"@)
            &&& !has_prefix(mime, "text/"@)
            &&& !has_prefix(mime, "application/pdf"@)
            &&& !has_prefix(mime, "application/rtf"@)
            &&& !has_prefix(mime, "application/vnd.openxmlformats"@)
            &&& !has_prefix(mime, "application/zip"@)
            &&& !has_prefix(mime, "application/gzip"@)
            &&& !has_prefix(mime, "application/x-tar"@)
            &&& !has_prefix(mime, "application/x-7z"@)
            &&& !has_prefix(mime, "font/"@)
        }) ==> ir_type_of(mime) == "Unknown"@,
{
    lemma_category_image(mime);
    lemma_category_audio(mime);
    lemma_category_appogg(mime);
    lemma_category_video(mime);
    lemma_category_appjson(mime);
    lemma_category_textcsv(mime);
    lemma_category_appxml(mime);
    lemma_category_appx_yaml(mime);
    lemma_category_text(mime);
    lemma_category_apppdf(mime);
    lemma_category_apprtf(mime);
    lemma_category_appvnd_openxmlformats(mime);
    lemma_category_appzip(mime);
    lemma_category_appgzip(mime);
    lemma_category_appx_tar(mime);
    lemma_category_appx_7z(mime);
    lemma_category_font(mime);
}

/// A conversion path goes through the representation of its source's category: where
/// some plugin decodes the source and some plugin encodes the target, the chosen path
/// of an audio source runs through "Audio", that of an image through "Image", and so on.
pub proof fn law_route_through_category(ps: Seq<ManifestSpec>, source: Seq<char>, target: Seq<char>)
    requires
        decoders_of(ps, source).len() > 0,
        encoders_of(ps, target).len() > 0,
    ensures
        best_path(ps, source, target).ir_type == ir_type_of(source),
        has_prefix(source, "image/"@) ==> best_path(ps, source, target).ir_type == "Image"@,
        has_prefix(source, "audio/"@) ==> best_path(ps, source, target).ir_type == "Audio"@,
        has_prefix(source, "video/"@) ==> best_path(ps, source, target).ir_type == "Video"@,
        has_prefix(source, "application/json"@) ==> best_path(ps, source, target).ir_type == "Table"@,
        has_prefix(source, "application/pdf"@) ==> best_path(ps, source, target).ir_type == "Document"@,
        has_prefix(source, "application/zip"@) ==> best_path(ps, source, target).ir_type == "Archive"@,
        has_prefix(source, "font/"@) ==> best_path(ps, source, target).ir_type == "Font"@,
{
    law_best_path_has_highest_fidelity(ps, source, target);
    law_ir_categories(source);
}

// ---------------------------------------------------------------- plain text

proof fn lemma_runs_text_concat(a: Seq<InlineRun>, b: Seq<InlineRun>)
    ensures
        runs_text(a + b) == runs_text(a) + runs_text(b),
    decreases b.len(),
{
    if b.len() == 0 {
        assert(a + b =~= a);
    } else {
        assert((a + b).drop_last() =~= a + b.drop_last());
        assert((a + b).last() == b.last());
        lemma_runs_text_concat(a, b.drop_last());
    }
}

proof fn lemma_runs_text_around(before: Seq<InlineRun>, r: InlineRun, after: Seq<InlineRun>)
    ensures
        runs_text(before + seq![r] + after) == runs_text(before) + run_text(r) + runs_text(after),
{
    let one = seq![r];
    lemma_runs_text_concat(before + one, after);
    lemma_runs_text_concat(before, one);
    assert(one.drop_last() =~= Seq::<InlineRun>::empty());
    assert(runs_text(Seq::<InlineRun>::empty()) =~= Seq::<char>::empty());
    assert(runs_text(one) =~= run_text(r));
}

/// The plain text of a run of inlines is the text of the part before a run, that run's
/// text and the text of the part after it: a text run gives its text as written, a line
/// break a newline and a tab a tab character.
pub proof fn law_inline_text(before: Seq<InlineRun>, t: TextRun, after: Seq<InlineRun>)
    ensures
        runs_text(before + seq![InlineRun::LineBreak] + after) == runs_text(before) + seq!['\n'] + runs_text(after),
        runs_text(before + seq![InlineRun::Tab] + after) == runs_text(before) + seq!['\t'] + runs_text(after),
        runs_text(before + seq![InlineRun::Text(t)] + after) == runs_text(before) + t.text@ + runs_text(after),
{
    reveal_strlit("\n");
    reveal_strlit("\t");
    assert("\n"@ =~= seq!['\n']);
    assert("\t"@ =~= seq!['\t']);
    lemma_runs_text_around(before, InlineRun::LineBreak, after);
    lemma_runs_text_around(before, InlineRun::Tab, after);
    lemma_runs_text_around(before, InlineRun::Text(t), after);
}

/// A document made of one paragraph reads as that paragraph's runs followed by a
/// newline.
pub proof fn law_paragraph_text(p: Paragraph)
    ensures
        document_text(seq![Block::Paragraph(p)]) == runs_text(p.runs@) + seq!['\n'],
{
    reveal_strlit("\n");
    let d = seq![Block::Paragraph(p)];
    assert(d.drop_last() =~= Seq::<Block>::empty());
    assert("\n"@ =~= seq!['\n']);
    assert(document_text(d.drop_last()) =~= Seq::<char>::empty());
    assert(Seq::<char>::empty() + runs_text(p.runs@) =~= runs_text(p.runs@));
}

// ---------------------------------------------------------------- plugin ranking

proof fn lemma_product_order(pk: int, fk: int, pj: int, fj: int)
    by (nonlinear_arith)
    requires
        0 <= pj < pk,
        0 <= fj <= fk,
        0 < fk,
    ensures
        pj * fj < pk * fk,
{
}

/// The plugin `best_plugin` picks for a format has the highest priority times fidelity
/// score among those that handle it, and the earliest registered of those that tie:
/// so among plugins of equal positive fidelity the one of higher priority wins, and
/// no plugin with a higher priority and at least the same positive fidelity is passed
/// over for one of non-negative priority.
pub proof fn law_best_plugin_rank(ms: Seq<ManifestSpec>, ix: Seq<int>, j: int)
    requires
        is_best(ms, ix, j),
    ensures
        forall|k: int|
            0 <= k < ix.len() ==> (#[trigger] ms[ix[k]]).priority * ms[ix[k]].fidelity_score <= ms[ix[j]].priority
                * ms[ix[j]].fidelity_score,
        forall|k: int|
            0 <= k < j ==> (#[trigger] ms[ix[k]]).priority * ms[ix[k]].fidelity_score < ms[ix[j]].priority
                * ms[ix[j]].fidelity_score,
        forall|k: int|
            0 <= k < ix.len() && (#[trigger] ms[ix[k]]).fidelity_score == ms[ix[j]].fidelity_score
                && ms[ix[j]].fidelity_score > 0 ==> ms[ix[k]].priority <= ms[ix[j]].priority,
        forall|k: int|
            0 <= k < ix.len() && ms[ix[j]].priority >= 0 && (#[trigger] ms[ix[k]]).fidelity_score > 0
                && ms[ix[k]].fidelity_score >= ms[ix[j]].fidelity_score ==> ms[ix[k]].priority <= ms[ix[j]].priority,
{
    let b = ms[ix[j]];
    assert forall|k: int|
        0 <= k < ix.len() && (#[trigger] ms[ix[k]]).fidelity_score == b.fidelity_score
            && b.fidelity_score > 0 implies ms[ix[k]].priority <= b.priority by {
        let c = ms[ix[k]];
        assert(!beats(c, b));
        if c.priority > b.priority {
            assert(c.priority * c.fidelity_score > b.priority * b.fidelity_score) by (nonlinear_arith)
                requires
                    c.priority > b.priority,
                    c.fidelity_score == b.fidelity_score,
                    b.fidelity_score > 0,
            ;
        }
    }
    assert forall|k: int|
        0 <= k < ix.len() && b.priority >= 0 && (#[trigger] ms[ix[k]]).fidelity_score > 0
            && ms[ix[k]].fidelity_score >= b.fidelity_score implies ms[ix[k]].priority <= b.priority by {
        let c = ms[ix[k]];
        assert(!beats(c, b));
        if c.priority > b.priority {
            lemma_product_order(c.priority as int, c.fidelity_score as int, b.priority as int, b.fidelity_score as int);
        }
    }
}

// ---------------------------------------------------------------- image sizes

proof fn lemma_whole_bytes(n: int, c: int, b: int)
    by (nonlinear_arith)
    requires
        n >= 0,
        c >= 0,
        b == 8 || b == 16,
    ensures
        (n * (b * c) + 7) / 8 == (b / 8) * n * c,
{
}

/// Channels count the colour model's components, an alpha channel adding one: gray
/// has one, gray with alpha two, RGB three, RGBA four, CMYK four, the other three-part
/// models three and indexed colour one. An 8-bit image's raw size is one byte per
/// channel of each pixel and a 16-bit image's two, so a w × h RGBA 8-bit image takes
/// 4·w·h bytes, as `expected_data_size` reports.
pub proof fn law_image_channels(ir: ImageIR)
    ensures
        channels_of(ColorSpace::Gray) == 1,
        channels_of(ColorSpace::GrayAlpha) == channels_of(ColorSpace::Gray) + 1,
        channels_of(ColorSpace::Rgb) == 3,
        channels_of(ColorSpace::Rgba) == channels_of(ColorSpace::Rgb) + 1,
        channels_of(ColorSpace::Rgba) == 4,
        channels_of(ColorSpace::Cmyk) == 4,
        channels_of(ColorSpace::YCbCr) == 3 && channels_of(ColorSpace::Lab) == 3,
        channels_of(ColorSpace::Hsl) == 3 && channels_of(ColorSpace::Hsv) == 3,
        ir.color_space is Indexed ==> channels_of(ir.color_space) == 1,
        ir.bit_depth == BitDepth::U8 ==> raw_size(ir) == ir.dimensions.width * ir.dimensions.height * channels_of(
            ir.color_space,
        ),
        ir.bit_depth == BitDepth::U16 ==> raw_size(ir) == 2 * ir.dimensions.width * ir.dimensions.height
            * channels_of(ir.color_space),
        ir.bit_depth == BitDepth::U8 && ir.color_space == ColorSpace::Rgba ==> raw_size(ir) == 4 * ir.dimensions.width
            * ir.dimensions.height,
{
    let w = ir.dimensions.width as int;
    let h = ir.dimensions.height as int;
    let n = w * h;
    let c = channels_of(ir.color_space) as int;
    assert(n >= 0) by (nonlinear_arith)
        requires
            w >= 0,
            h >= 0,
            n == w * h,
    ;
    if ir.bit_depth == BitDepth::U8 {
        lemma_whole_bytes(n, c, 8);
        assert(1 * n * c == n * c) by (nonlinear_arith);
    }
    if ir.bit_depth == BitDepth::U16 {
        lemma_whole_bytes(n, c, 16);
        assert(2 * n * c == 2 * w * h * c) by (nonlinear_arith)
            requires
                n == w * h,
        ;
    }
    if ir.bit_depth == BitDepth::U8 && ir.color_space == ColorSpace::Rgba {
        assert(n * 4 == 4 * w * h) by (nonlinear_arith)
            requires
                n == w * h,
        ;
    }
}

} // verus!
