//! The table of formats a detector knows from the start.
use vstd::prelude::*;
use crate::detector::{FormatDetector, DetectorSpec, insert_extensions};
use crate::format::{FormatId, FormatSpec};

verus! {

/// A format's content from its MIME type, extensions and display name.
pub open spec fn format_spec(mime: Seq<char>, extensions: Seq<Seq<char>>, display_name: Seq<char>) -> FormatSpec {
    FormatSpec { mime, extensions, display_name }
}

/// Magic signatures of the built-in image formats, in registration order.
pub open spec fn image_magic() -> Seq<(usize, Seq<u8>, FormatSpec)> {
    seq![
        (0usize, seq![137u8, 80u8, 78u8, 71u8, 13u8, 10u8, 26u8, 10u8], format_spec("image/png"@, seq!["png"@], "PNG"@)),
        (0usize, seq![255u8, 216u8, 255u8], format_spec("image/jpeg"@, seq!["jpg"@, "jpeg"@], "JPEG"@)),
        (0usize, seq![71u8, 73u8, 70u8, 56u8, 55u8, 97u8], format_spec("image/gif"@, seq!["gif"@], "GIF"@)),
        (0usize, seq![71u8, 73u8, 70u8, 56u8, 57u8, 97u8], format_spec("image/gif"@, seq!["gif"@], "GIF"@)),
        (0usize, seq![66u8, 77u8], format_spec("image/bmp"@, seq!["bmp"@], "BMP"@)),
        (0usize, seq![82u8, 73u8, 70u8, 70u8], format_spec("image/webp"@, seq!["webp"@], "WebP"@)),
        (0usize, seq![73u8, 73u8, 42u8, 0u8], format_spec("image/tiff"@, seq!["tiff"@, "tif"@], "TIFF"@)),
        (0usize, seq![77u8, 77u8, 0u8, 42u8], format_spec("image/tiff"@, seq!["tiff"@, "tif"@], "TIFF"@)),
        (0usize, seq![0u8, 0u8, 1u8, 0u8], format_spec("image/x-icon"@, seq!["ico"@], "ICO"@)),
        (0usize, seq![113u8, 111u8, 105u8, 102u8], format_spec("image/qoi"@, seq!["qoi"@], "QOI"@)),
    ]
}

/// The extension map after the built-in image formats are registered.
pub open spec fn image_extensions(m: Map<Seq<char>, FormatSpec>) -> Map<Seq<char>, FormatSpec> {
    let m = insert_extensions(m, seq!["png"@], format_spec("image/png"@, seq!["png"@], "PNG"@));
    let m = insert_extensions(m, seq!["jpg"@, "jpeg"@], format_spec("image/jpeg"@, seq!["jpg"@, "jpeg"@], "JPEG"@));
    let m = insert_extensions(m, seq!["gif"@], format_spec("image/gif"@, seq!["gif"@], "GIF"@));
    let m = insert_extensions(m, seq!["bmp"@], format_spec("image/bmp"@, seq!["bmp"@], "BMP"@));
    let m = insert_extensions(m, seq!["webp"@], format_spec("image/webp"@, seq!["webp"@], "WebP"@));
    let m = insert_extensions(m, seq!["tiff"@, "tif"@], format_spec("image/tiff"@, seq!["tiff"@, "tif"@], "TIFF"@));
    let m = insert_extensions(m, seq!["ico"@], format_spec("image/x-icon"@, seq!["ico"@], "ICO"@));
    let m = insert_extensions(m, seq!["avif"@], format_spec("image/avif"@, seq!["avif"@], "AVIF"@));
    let m = insert_extensions(m, seq!["qoi"@], format_spec("image/qoi"@, seq!["qoi"@], "QOI"@));
    m
}

/// Magic signatures of the built-in audio formats, in registration order.
pub open spec fn audio_magic() -> Seq<(usize, Seq<u8>, FormatSpec)> {
    seq![
        (0usize, seq![82u8, 73u8, 70u8, 70u8], format_spec("audio/wav"@, seq!["wav"@], "WAV"@)),
        (0usize, seq![102u8, 76u8, 97u8, 67u8], format_spec("audio/flac"@, seq!["flac"@], "FLAC"@)),
        (0usize, seq![255u8, 251u8], format_spec("audio/mpeg"@, seq!["mp3"@], "MP3"@)),
        (0usize, seq![255u8, 243u8], format_spec("audio/mpeg"@, seq!["mp3"@], "MP3"@)),
        (0usize, seq![255u8, 242u8], format_spec("audio/mpeg"@, seq!["mp3"@], "MP3"@)),
        (0usize, seq![73u8, 68u8, 51u8], format_spec("audio/mpeg"@, seq!["mp3"@], "MP3"@)),
        (0usize, seq![79u8, 103u8, 103u8, 83u8], format_spec("audio/ogg"@, seq!["ogg"@, "oga"@, "opus"@], "OGG"@)),
        (0usize, seq![70u8, 79u8, 82u8, 77u8], format_spec("audio/aiff"@, seq!["aiff"@, "aif"@], "AIFF"@)),
    ]
}

/// The extension map after the built-in audio formats are registered.
pub open spec fn audio_extensions(m: Map<Seq<char>, FormatSpec>) -> Map<Seq<char>, FormatSpec> {
    let m = insert_extensions(m, seq!["wav"@], format_spec("audio/wav"@, seq!["wav"@], "WAV"@));
    let m = insert_extensions(m, seq!["flac"@], format_spec("audio/flac"@, seq!["flac"@], "FLAC"@));
    let m = insert_extensions(m, seq!["mp3"@], format_spec("audio/mpeg"@, seq!["mp3"@], "MP3"@));
    let m = insert_extensions(m, seq!["ogg"@, "oga"@, "opus"@], format_spec("audio/ogg"@, seq!["ogg"@, "oga"@, "opus"@], "OGG"@));
    let m = insert_extensions(m, seq!["aac"@, "m4a"@], format_spec("audio/aac"@, seq!["aac"@, "m4a"@], "AAC"@));
    let m = insert_extensions(m, seq!["aiff"@, "aif"@], format_spec("audio/aiff"@, seq!["aiff"@, "aif"@], "AIFF"@));
    m
}

/// Magic signatures of the built-in video formats, in registration order.
pub open spec fn video_magic() -> Seq<(usize, Seq<u8>, FormatSpec)> {
    seq![
        (0usize, seq![26u8, 69u8, 223u8, 163u8], format_spec("video/x-matroska"@, seq!["mkv"@, "webm"@], "Matroska/WebM"@)),
        (0usize, seq![82u8, 73u8, 70u8, 70u8], format_spec("video/x-msvideo"@, seq!["avi"@], "AVI"@)),
    ]
}

/// The extension map after the built-in video formats are registered.
pub open spec fn video_extensions(m: Map<Seq<char>, FormatSpec>) -> Map<Seq<char>, FormatSpec> {
    let m = insert_extensions(m, seq!["mp4"@, "m4v"@], format_spec("video/mp4"@, seq!["mp4"@, "m4v"@], "MP4"@));
    let m = insert_extensions(m, seq!["mkv"@, "webm"@], format_spec("video/x-matroska"@, seq!["mkv"@, "webm"@], "Matroska/WebM"@));
    let m = insert_extensions(m, seq!["avi"@], format_spec("video/x-msvideo"@, seq!["avi"@], "AVI"@));
    m
}

/// Magic signatures of the built-in document formats, in registration order.
pub open spec fn document_magic() -> Seq<(usize, Seq<u8>, FormatSpec)> {
    seq![
        (0usize, seq![37u8, 80u8, 68u8, 70u8], format_spec("application/pdf"@, seq!["pdf"@], "PDF"@)),
        (0usize, seq![123u8, 92u8, 114u8, 116u8, 102u8], format_spec("application/rtf"@, seq!["rtf"@], "RTF"@)),
    ]
}

/// The extension map after the built-in document formats are registered.
pub open spec fn document_extensions(m: Map<Seq<char>, FormatSpec>) -> Map<Seq<char>, FormatSpec> {
    let m = insert_extensions(m, seq!["pdf"@], format_spec("application/pdf"@, seq!["pdf"@], "PDF"@));
    let m = insert_extensions(m, seq!["docx"@], format_spec("application/vnd.openxmlformats-officedocument.wordprocessingml.document"@, seq!["docx"@], "DOCX"@));
    let m = insert_extensions(m, seq!["html"@, "htm"@], format_spec("text/html"@, seq!["html"@, "htm"@], "HTML"@));
    let m = insert_extensions(m, seq!["md"@, "markdown"@], format_spec("text/markdown"@, seq!["md"@, "markdown"@], "Markdown"@));
    let m = insert_extensions(m, seq!["rtf"@], format_spec("application/rtf"@, seq!["rtf"@], "RTF"@));
    let m = insert_extensions(m, seq!["txt"@], format_spec("text/plain"@, seq!["txt"@], "Plain Text"@));
    m
}

/// Magic signatures of the built-in archive formats, in registration order.
pub open spec fn archive_magic() -> Seq<(usize, Seq<u8>, FormatSpec)> {
    seq![
        (0usize, seq![80u8, 75u8, 3u8, 4u8], format_spec("application/zip"@, seq!["zip"@, "jar"@, "docx"@, "xlsx"@, "pptx"@], "ZIP"@)),
        (0usize, seq![31u8, 139u8], format_spec("application/gzip"@, seq!["gz"@, "tgz"@], "Gzip"@)),
        (0usize, seq![55u8, 122u8, 188u8, 175u8, 39u8, 28u8], format_spec("application/x-7z-compressed"@, seq!["7z"@], "7-Zip"@)),
    ]
}

/// The extension map after the built-in archive formats are registered.
pub open spec fn archive_extensions(m: Map<Seq<char>, FormatSpec>) -> Map<Seq<char>, FormatSpec> {
    let m = insert_extensions(m, seq!["zip"@, "jar"@, "docx"@, "xlsx"@, "pptx"@], format_spec("application/zip"@, seq!["zip"@, "jar"@, "docx"@, "xlsx"@, "pptx"@], "ZIP"@));
    let m = insert_extensions(m, seq!["gz"@, "tgz"@], format_spec("application/gzip"@, seq!["gz"@, "tgz"@], "Gzip"@));
    let m = insert_extensions(m, seq!["tar"@], format_spec("application/x-tar"@, seq!["tar"@], "TAR"@));
    let m = insert_extensions(m, seq!["7z"@], format_spec("application/x-7z-compressed"@, seq!["7z"@], "7-Zip"@));
    m
}

/// Magic signatures of the built-in structured data formats, in registration order.
pub open spec fn structured_data_magic() -> Seq<(usize, Seq<u8>, FormatSpec)> {
    Seq::empty()
}

/// The extension map after the built-in structured data formats are registered.
pub open spec fn structured_data_extensions(m: Map<Seq<char>, FormatSpec>) -> Map<Seq<char>, FormatSpec> {
    let m = insert_extensions(m, seq!["csv"@], format_spec("text/csv"@, seq!["csv"@], "CSV"@));
    let m = insert_extensions(m, seq!["json"@], format_spec("application/json"@, seq!["json"@], "JSON"@));
    let m = insert_extensions(m, seq!["xml"@], format_spec("application/xml"@, seq!["xml"@], "XML"@));
    let m = insert_extensions(m, seq!["yaml"@, "yml"@], format_spec("application/x-yaml"@, seq!["yaml"@, "yml"@], "YAML"@));
    m
}

/// Magic signatures of the built-in font formats, in registration order.
pub open spec fn font_magic() -> Seq<(usize, Seq<u8>, FormatSpec)> {
    seq![
        (0usize, seq![0u8, 1u8, 0u8, 0u8, 0u8], format_spec("font/ttf"@, seq!["ttf"@], "TrueType"@)),
        (0usize, seq![79u8, 84u8, 84u8, 79u8], format_spec("font/otf"@, seq!["otf"@], "OpenType"@)),
        (0usize, seq![119u8, 79u8, 70u8, 70u8], format_spec("font/woff"@, seq!["woff"@], "WOFF"@)),
        (0usize, seq![119u8, 79u8, 70u8, 50u8], format_spec("font/woff2"@, seq!["woff2"@], "WOFF2"@)),
    ]
}

/// The extension map after the built-in font formats are registered.
pub open spec fn font_extensions(m: Map<Seq<char>, FormatSpec>) -> Map<Seq<char>, FormatSpec> {
    let m = insert_extensions(m, seq!["ttf"@], format_spec("font/ttf"@, seq!["ttf"@], "TrueType"@));
    let m = insert_extensions(m, seq!["otf"@], format_spec("font/otf"@, seq!["otf"@], "OpenType"@));
    let m = insert_extensions(m, seq!["woff"@], format_spec("font/woff"@, seq!["woff"@], "WOFF"@));
    let m = insert_extensions(m, seq!["woff2"@], format_spec("font/woff2"@, seq!["woff2"@], "WOFF2"@));
    m
}

/// Every built-in magic signature, in registration order.
pub open spec fn builtin_magic() -> Seq<(usize, Seq<u8>, FormatSpec)> {
    image_magic()
        + audio_magic()
        + video_magic()
        + document_magic()
        + archive_magic()
        + structured_data_magic()
        + font_magic()
}

/// The extension map after every built-in format is registered.
pub open spec fn builtin_extensions(m: Map<Seq<char>, FormatSpec>) -> Map<Seq<char>, FormatSpec> {
    font_extensions(structured_data_extensions(archive_extensions(document_extensions(video_extensions(audio_extensions(image_extensions(m)))))))
}

/// What a new detector knows.
pub open spec fn builtin_detector() -> DetectorSpec {
    DetectorSpec { magic: builtin_magic(), extensions: builtin_extensions(Map::empty()) }
}

impl FormatDetector {
    pub(crate) fn register_image(&mut self)
        ensures
            final(self)@.magic == old(self)@.magic + image_magic(),
            final(self)@.extensions == image_extensions(old(self)@.extensions),
    {
        let ghost m0 = self@.magic;
        let png = FormatId::new("image/png", &["png"], "PNG");
        assert(png@ == format_spec("image/png"@, seq!["png"@], "PNG"@)) by { assert(png@.extensions =~= seq!["png"@]); }
        self.register_magic(0, vec![0x89, 0x50, 0x4E, 0x47, 0x0D, 0x0A, 0x1A, 0x0A], png.clone());
        self.register_extensions(&png);
        let jpeg = FormatId::new("image/jpeg", &["jpg", "jpeg"], "JPEG");
        assert(jpeg@ == format_spec("image/jpeg"@, seq!["jpg"@, "jpeg"@], "JPEG"@)) by { assert(jpeg@.extensions =~= seq!["jpg"@, "jpeg"@]); }
        self.register_magic(0, vec![0xFF, 0xD8, 0xFF], jpeg.clone());
        self.register_extensions(&jpeg);
        let gif = FormatId::new("image/gif", &["gif"], "GIF");
        assert(gif@ == format_spec("image/gif"@, seq!["gif"@], "GIF"@)) by { assert(gif@.extensions =~= seq!["gif"@]); }
        self.register_magic(0, vec![0x47, 0x49, 0x46, 0x38, 0x37, 0x61], gif.clone());
        self.register_magic(0, vec![0x47, 0x49, 0x46, 0x38, 0x39, 0x61], gif.clone());
        self.register_extensions(&gif);
        let bmp = FormatId::new("image/bmp", &["bmp"], "BMP");
        assert(bmp@ == format_spec("image/bmp"@, seq!["bmp"@], "BMP"@)) by { assert(bmp@.extensions =~= seq!["bmp"@]); }
        self.register_magic(0, vec![0x42, 0x4D], bmp.clone());
        self.register_extensions(&bmp);
        let webp = FormatId::new("image/webp", &["webp"], "WebP");
        assert(webp@ == format_spec("image/webp"@, seq!["webp"@], "WebP"@)) by { assert(webp@.extensions =~= seq!["webp"@]); }
        self.register_magic(0, vec![0x52, 0x49, 0x46, 0x46], webp.clone());
        self.register_extensions(&webp);
        let tiff = FormatId::new("image/tiff", &["tiff", "tif"], "TIFF");
        assert(tiff@ == format_spec("image/tiff"@, seq!["tiff"@, "tif"@], "TIFF"@)) by { assert(tiff@.extensions =~= seq!["tiff"@, "tif"@]); }
        self.register_magic(0, vec![0x49, 0x49, 0x2A, 0x00], tiff.clone());
        self.register_magic(0, vec![0x4D, 0x4D, 0x00, 0x2A], tiff.clone());
        self.register_extensions(&tiff);
        let ico = FormatId::new("image/x-icon", &["ico"], "ICO");
        assert(ico@ == format_spec("image/x-icon"@, seq!["ico"@], "ICO"@)) by { assert(ico@.extensions =~= seq!["ico"@]); }
        self.register_magic(0, vec![0x00, 0x00, 0x01, 0x00], ico.clone());
        self.register_extensions(&ico);
        let avif = FormatId::new("image/avif", &["avif"], "AVIF");
        assert(avif@ == format_spec("image/avif"@, seq!["avif"@], "AVIF"@)) by { assert(avif@.extensions =~= seq!["avif"@]); }
        self.register_extensions(&avif);
        let qoi = FormatId::new("image/qoi", &["qoi"], "QOI");
        assert(qoi@ == format_spec("image/qoi"@, seq!["qoi"@], "QOI"@)) by { assert(qoi@.extensions =~= seq!["qoi"@]); }
        self.register_magic(0, vec![0x71, 0x6F, 0x69, 0x66], qoi.clone());
        self.register_extensions(&qoi);
        assert(self@.magic =~= m0 + image_magic());
    }

    pub(crate) fn register_audio(&mut self)
        ensures
            final(self)@.magic == old(self)@.magic + audio_magic(),
            final(self)@.extensions == audio_extensions(old(self)@.extensions),
    {
        let ghost m0 = self@.magic;
        let wav = FormatId::new("audio/wav", &["wav"], "WAV");
        assert(wav@ == format_spec("audio/wav"@, seq!["wav"@], "WAV"@)) by { assert(wav@.extensions =~= seq!["wav"@]); }
        self.register_magic(0, vec![0x52, 0x49, 0x46, 0x46], wav.clone());
        self.register_extensions(&wav);
        let flac = FormatId::new("audio/flac", &["flac"], "FLAC");
        assert(flac@ == format_spec("audio/flac"@, seq!["flac"@], "FLAC"@)) by { assert(flac@.extensions =~= seq!["flac"@]); }
        self.register_magic(0, vec![0x66, 0x4C, 0x61, 0x43], flac.clone());
        self.register_extensions(&flac);
        let mp3 = FormatId::new("audio/mpeg", &["mp3"], "MP3");
        assert(mp3@ == format_spec("audio/mpeg"@, seq!["mp3"@], "MP3"@)) by { assert(mp3@.extensions =~= seq!["mp3"@]); }
        self.register_magic(0, vec![0xFF, 0xFB], mp3.clone());
        self.register_magic(0, vec![0xFF, 0xF3], mp3.clone());
        self.register_magic(0, vec![0xFF, 0xF2], mp3.clone());
        self.register_magic(0, vec![0x49, 0x44, 0x33], mp3.clone());
        self.register_extensions(&mp3);
        let ogg = FormatId::new("audio/ogg", &["ogg", "oga", "opus"], "OGG");
        assert(ogg@ == format_spec("audio/ogg"@, seq!["ogg"@, "oga"@, "opus"@], "OGG"@)) by { assert(ogg@.extensions =~= seq!["ogg"@, "oga"@, "opus"@]); }
        self.register_magic(0, vec![0x4F, 0x67, 0x67, 0x53], ogg.clone());
        self.register_extensions(&ogg);
        let aac = FormatId::new("audio/aac", &["aac", "m4a"], "AAC");
        assert(aac@ == format_spec("audio/aac"@, seq!["aac"@, "m4a"@], "AAC"@)) by { assert(aac@.extensions =~= seq!["aac"@, "m4a"@]); }
        self.register_extensions(&aac);
        let aiff = FormatId::new("audio/aiff", &["aiff", "aif"], "AIFF");
        assert(aiff@ == format_spec("audio/aiff"@, seq!["aiff"@, "aif"@], "AIFF"@)) by { assert(aiff@.extensions =~= seq!["aiff"@, "aif"@]); }
        self.register_magic(0, vec![0x46, 0x4F, 0x52, 0x4D], aiff.clone());
        self.register_extensions(&aiff);
        assert(self@.magic =~= m0 + audio_magic());
    }

    pub(crate) fn register_video(&mut self)
        ensures
            final(self)@.magic == old(self)@.magic + video_magic(),
            final(self)@.extensions == video_extensions(old(self)@.extensions),
    {
        let ghost m0 = self@.magic;
        let mp4 = FormatId::new("video/mp4", &["mp4", "m4v"], "MP4");
        assert(mp4@ == format_spec("video/mp4"@, seq!["mp4"@, "m4v"@], "MP4"@)) by { assert(mp4@.extensions =~= seq!["mp4"@, "m4v"@]); }
        self.register_extensions(&mp4);
        let mkv = FormatId::new("video/x-matroska", &["mkv", "webm"], "Matroska/WebM");
        assert(mkv@ == format_spec("video/x-matroska"@, seq!["mkv"@, "webm"@], "Matroska/WebM"@)) by { assert(mkv@.extensions =~= seq!["mkv"@, "webm"@]); }
        self.register_magic(0, vec![0x1A, 0x45, 0xDF, 0xA3], mkv.clone());
        self.register_extensions(&mkv);
        let avi = FormatId::new("video/x-msvideo", &["avi"], "AVI");
        assert(avi@ == format_spec("video/x-msvideo"@, seq!["avi"@], "AVI"@)) by { assert(avi@.extensions =~= seq!["avi"@]); }
        self.register_magic(0, vec![0x52, 0x49, 0x46, 0x46], avi.clone());
        self.register_extensions(&avi);
        assert(self@.magic =~= m0 + video_magic());
    }

    pub(crate) fn register_document(&mut self)
        ensures
            final(self)@.magic == old(self)@.magic + document_magic(),
            final(self)@.extensions == document_extensions(old(self)@.extensions),
    {
        let ghost m0 = self@.magic;
        let pdf = FormatId::new("application/pdf", &["pdf"], "PDF");
        assert(pdf@ == format_spec("application/pdf"@, seq!["pdf"@], "PDF"@)) by { assert(pdf@.extensions =~= seq!["pdf"@]); }
        self.register_magic(0, vec![0x25, 0x50, 0x44, 0x46], pdf.clone());
        self.register_extensions(&pdf);
        let docx = FormatId::new("application/vnd.openxmlformats-officedocument.wordprocessingml.document", &["docx"], "DOCX");
        assert(docx@ == format_spec("application/vnd.openxmlformats-officedocument.wordprocessingml.document"@, seq!["docx"@], "DOCX"@)) by { assert(docx@.extensions =~= seq!["docx"@]); }
        self.register_extensions(&docx);
        let html = FormatId::new("text/html", &["html", "htm"], "HTML");
        assert(html@ == format_spec("text/html"@, seq!["html"@, "htm"@], "HTML"@)) by { assert(html@.extensions =~= seq!["html"@, "htm"@]); }
        self.register_extensions(&html);
        let markdown = FormatId::new("text/markdown", &["md", "markdown"], "Markdown");
        assert(markdown@ == format_spec("text/markdown"@, seq!["md"@, "markdown"@], "Markdown"@)) by { assert(markdown@.extensions =~= seq!["md"@, "markdown"@]); }
        self.register_extensions(&markdown);
        let rtf = FormatId::new("application/rtf", &["rtf"], "RTF");
        assert(rtf@ == format_spec("application/rtf"@, seq!["rtf"@], "RTF"@)) by { assert(rtf@.extensions =~= seq!["rtf"@]); }
        self.register_magic(0, vec![0x7B, 0x5C, 0x72, 0x74, 0x66], rtf.clone());
        self.register_extensions(&rtf);
        let txt = FormatId::new("text/plain", &["txt"], "Plain Text");
        assert(txt@ == format_spec("text/plain"@, seq!["txt"@], "Plain Text"@)) by { assert(txt@.extensions =~= seq!["txt"@]); }
        self.register_extensions(&txt);
        assert(self@.magic =~= m0 + document_magic());
    }

    pub(crate) fn register_archive(&mut self)
        ensures
            final(self)@.magic == old(self)@.magic + archive_magic(),
            final(self)@.extensions == archive_extensions(old(self)@.extensions),
    {
        let ghost m0 = self@.magic;
        let zip = FormatId::new("application/zip", &["zip", "jar", "docx", "xlsx", "pptx"], "ZIP");
        assert(zip@ == format_spec("application/zip"@, seq!["zip"@, "jar"@, "docx"@, "xlsx"@, "pptx"@], "ZIP"@)) by { assert(zip@.extensions =~= seq!["zip"@, "jar"@, "docx"@, "xlsx"@, "pptx"@]); }
        self.register_magic(0, vec![0x50, 0x4B, 0x03, 0x04], zip.clone());
        self.register_extensions(&zip);
        let gz = FormatId::new("application/gzip", &["gz", "tgz"], "Gzip");
        assert(gz@ == format_spec("application/gzip"@, seq!["gz"@, "tgz"@], "Gzip"@)) by { assert(gz@.extensions =~= seq!["gz"@, "tgz"@]); }
        self.register_magic(0, vec![0x1F, 0x8B], gz.clone());
        self.register_extensions(&gz);
        let tar = FormatId::new("application/x-tar", &["tar"], "TAR");
        assert(tar@ == format_spec("application/x-tar"@, seq!["tar"@], "TAR"@)) by { assert(tar@.extensions =~= seq!["tar"@]); }
        self.register_extensions(&tar);
        let sevenz = FormatId::new("application/x-7z-compressed", &["7z"], "7-Zip");
        assert(sevenz@ == format_spec("application/x-7z-compressed"@, seq!["7z"@], "7-Zip"@)) by { assert(sevenz@.extensions =~= seq!["7z"@]); }
        self.register_magic(0, vec![0x37, 0x7A, 0xBC, 0xAF, 0x27, 0x1C], sevenz.clone());
        self.register_extensions(&sevenz);
        assert(self@.magic =~= m0 + archive_magic());
    }

    pub(crate) fn register_structured_data(&mut self)
        ensures
            final(self)@.magic == old(self)@.magic + structured_data_magic(),
            final(self)@.extensions == structured_data_extensions(old(self)@.extensions),
    {
        let ghost m0 = self@.magic;
        let csv = FormatId::new("text/csv", &["csv"], "CSV");
        assert(csv@ == format_spec("text/csv"@, seq!["csv"@], "CSV"@)) by { assert(csv@.extensions =~= seq!["csv"@]); }
        self.register_extensions(&csv);
        let json = FormatId::new("application/json", &["json"], "JSON");
        assert(json@ == format_spec("application/json"@, seq!["json"@], "JSON"@)) by { assert(json@.extensions =~= seq!["json"@]); }
        self.register_extensions(&json);
        let xml = FormatId::new("application/xml", &["xml"], "XML");
        assert(xml@ == format_spec("application/xml"@, seq!["xml"@], "XML"@)) by { assert(xml@.extensions =~= seq!["xml"@]); }
        self.register_extensions(&xml);
        let yaml = FormatId::new("application/x-yaml", &["yaml", "yml"], "YAML");
        assert(yaml@ == format_spec("application/x-yaml"@, seq!["yaml"@, "yml"@], "YAML"@)) by { assert(yaml@.extensions =~= seq!["yaml"@, "yml"@]); }
        self.register_extensions(&yaml);
        assert(self@.magic =~= m0 + structured_data_magic());
    }

    pub(crate) fn register_font(&mut self)
        ensures
            final(self)@.magic == old(self)@.magic + font_magic(),
            final(self)@.extensions == font_extensions(old(self)@.extensions),
    {
        let ghost m0 = self@.magic;
        let ttf = FormatId::new("font/ttf", &["ttf"], "TrueType");
        assert(ttf@ == format_spec("font/ttf"@, seq!["ttf"@], "TrueType"@)) by { assert(ttf@.extensions =~= seq!["ttf"@]); }
        self.register_magic(0, vec![0x00, 0x01, 0x00, 0x00, 0x00], ttf.clone());
        self.register_extensions(&ttf);
        let otf = FormatId::new("font/otf", &["otf"], "OpenType");
        assert(otf@ == format_spec("font/otf"@, seq!["otf"@], "OpenType"@)) by { assert(otf@.extensions =~= seq!["otf"@]); }
        self.register_magic(0, vec![0x4F, 0x54, 0x54, 0x4F], otf.clone());
        self.register_extensions(&otf);
        let woff = FormatId::new("font/woff", &["woff"], "WOFF");
        assert(woff@ == format_spec("font/woff"@, seq!["woff"@], "WOFF"@)) by { assert(woff@.extensions =~= seq!["woff"@]); }
        self.register_magic(0, vec![0x77, 0x4F, 0x46, 0x46], woff.clone());
        self.register_extensions(&woff);
        let woff2 = FormatId::new("font/woff2", &["woff2"], "WOFF2");
        assert(woff2@ == format_spec("font/woff2"@, seq!["woff2"@], "WOFF2"@)) by { assert(woff2@.extensions =~= seq!["woff2"@]); }
        self.register_magic(0, vec![0x77, 0x4F, 0x46, 0x32], woff2.clone());
        self.register_extensions(&woff2);
        assert(self@.magic =~= m0 + font_magic());
    }

}

} // verus!
