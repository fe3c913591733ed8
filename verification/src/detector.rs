//! Format detection by magic bytes and by file extension.
use vstd::prelude::*;
use std::path::{Path, PathBuf};
use crate::assoc::{keys_unique, assoc_map, has_key, lemma_assoc_dom, lemma_assoc_lookup, lemma_assoc_update, lemma_assoc_push};
use crate::errors::CoreError;
use crate::format::{FormatId, FormatSpec};
use crate::text::{lowercase, to_lowercase, concat, str_eq};
use crate::builtin_formats::{builtin_detector, builtin_magic, builtin_extensions, image_magic, audio_magic, video_magic, document_magic, archive_magic, structured_data_magic, font_magic};

verus! {

#[verifier::external_type_specification]
#[verifier::external_body]
pub struct ExPath(std::path::Path);

#[verifier::external_type_specification]
#[verifier::external_body]
pub struct ExPathBuf(std::path::PathBuf);

/// The extension of a path as `Path::extension` finds it, where there is one and it
/// is valid UTF-8.
pub uninterp spec fn extension_of(path: &Path) -> Option<Seq<char>>;

/// A path as `Path::display` writes it.
pub uninterp spec fn display_of(path: &Path) -> Seq<char>;

/// Trusted: `Path::extension`, with the extension turned into a `String` when it
/// is valid UTF-8 (`OsStr::to_str`). The result depends on the path alone; it is
/// named, not stated.
#[verifier::external_body]
fn path_extension(path: &Path) -> (r: Option<String>)
    ensures
        match r {
            Some(e) => extension_of(path) == Some(e@),
            None => extension_of(path) is None,
        },
{
    path.extension().and_then(|e| e.to_str()).map(|e| e.to_string())
}

/// Trusted: `Path::display`, written out as a `String`. The text depends on the path
/// alone; it is named, not stated.
#[verifier::external_body]
fn path_display(path: &Path) -> (r: String)
    ensures
        r@ == display_of(path),
{
    path.display().to_string()
}

/// The signature `sig` lies in `header` at byte `offset`.
pub open spec fn signature_matches(header: Seq<u8>, offset: int, sig: Seq<u8>) -> bool {
    offset + sig.len() <= header.len() && header.subrange(offset, offset + sig.len()) == sig
}

/// The format of the first registered signature that lies in `header`.
pub open spec fn first_magic_match(magic: Seq<(usize, Seq<u8>, FormatSpec)>, header: Seq<u8>) -> Option<FormatSpec>
    decreases magic.len(),
{
    if magic.len() == 0 {
        None
    } else if signature_matches(header, magic[0].0 as int, magic[0].1) {
        Some(magic[0].2)
    } else {
        first_magic_match(magic.drop_first(), header)
    }
}

/// The map after every extension in `exts`, lower-cased, is sent to `f`, in order.
pub open spec fn insert_extensions(m: Map<Seq<char>, FormatSpec>, exts: Seq<Seq<char>>, f: FormatSpec) -> Map<Seq<char>, FormatSpec>
    decreases exts.len(),
{
    if exts.len() == 0 {
        m
    } else {
        insert_extensions(m, exts.drop_last(), f).insert(lowercase(exts.last()), f)
    }
}

/// The format registered for an extension, compared lower-cased, if there is one.
pub open spec fn extension_format(d: DetectorSpec, ext: Option<Seq<char>>) -> Option<FormatSpec> {
    match ext {
        Some(e) => if d.extensions.dom().contains(lowercase(e)) {
            Some(d.extensions[lowercase(e)])
        } else {
            None
        },
        None => None,
    }
}

/// The format detected for a file whose first bytes are `header` and whose
/// extension is `ext`: that of the first signature found in the header, otherwise
/// that of the extension.
pub open spec fn detection(d: DetectorSpec, header: Seq<u8>, ext: Option<Seq<char>>) -> Option<FormatSpec> {
    match first_magic_match(d.magic, header) {
        Some(f) => Some(f),
        None => extension_format(d, ext),
    }
}

/// The reason given when no format is detected for the path written `shown`.
pub open spec fn detection_failure(shown: Seq<char>) -> Seq<char> {
    "Could not detect format for: "@ + shown
}

/// What a detector knows: its magic signatures in registration order, and the
/// map from lower-cased extension to format.
pub struct DetectorSpec {
    pub magic: Seq<(usize, Seq<u8>, FormatSpec)>,
    pub extensions: Map<Seq<char>, FormatSpec>,
}

pub open spec fn magic_view(v: Seq<(usize, Vec<u8>, FormatId)>) -> Seq<(usize, Seq<u8>, FormatSpec)> {
    v.map_values(|e: (usize, Vec<u8>, FormatId)| (e.0, e.1@, e.2@))
}

pub open spec fn ext_view(v: Seq<(String, FormatId)>) -> Seq<(Seq<char>, FormatSpec)> {
    v.map_values(|e: (String, FormatId)| (e.0@, e.1@))
}

/// Format detection using magic bytes and file extensions.
pub struct FormatDetector {
    /// Magic byte signatures: (offset, bytes, format)
    magic_signatures: Vec<(usize, Vec<u8>, FormatId)>,
    /// Lower-cased extension → format, each extension once
    extension_map: Vec<(String, FormatId)>,
}

impl View for FormatDetector {
    type V = DetectorSpec;

    closed spec fn view(&self) -> DetectorSpec {
        DetectorSpec {
            magic: magic_view(self.magic_signatures@),
            extensions: assoc_map(ext_view(self.extension_map@)),
        }
    }
}

/// Lower-cased extension and the format it was last registered for.
fn ext_find(entries: &Vec<(String, FormatId)>, key: &String) -> (r: Option<usize>)
    ensures
        match r {
            Some(i) => i < entries@.len() && entries@[i as int].0@ == key@,
            None => !has_key(ext_view(entries@), key@),
        },
{
    let mut i: usize = 0;
    while i < entries.len()
        invariant
            i <= entries@.len(),
            forall|j: int| 0 <= j < i ==> (#[trigger] entries@[j]).0@ != key@,
        decreases entries@.len() - i,
    {
        if str_eq(entries[i].0.as_str(), key.as_str()) {
            return Some(i);
        }
        i = i + 1;
    }
    assert forall|j: int| 0 <= j < ext_view(entries@).len() implies (#[trigger] ext_view(entries@)[j]).0 != key@ by {
        assert(ext_view(entries@)[j].0 == entries@[j].0@);
    }
    None
}

impl FormatDetector {
    #[verifier::type_invariant]
    spec fn inv(self) -> bool {
        keys_unique(ext_view(self.extension_map@))
    }

    /// A detector that knows every built-in format.
    pub fn new() -> (r: Self)
        ensures
            r@ == builtin_detector(),
    {
        let mut detector = FormatDetector { magic_signatures: Vec::new(), extension_map: Vec::new() };
        proof {
            assert(magic_view(detector.magic_signatures@) =~= Seq::empty());
            assert(assoc_map(ext_view(detector.extension_map@)) =~= Map::empty());
        }
        detector.register_built_in_formats();
        detector
    }

    /// The first registered format whose magic signature lies in `header`.
    pub fn detect_by_magic(&self, header: &[u8]) -> (r: Option<FormatId>)
        ensures
            match first_magic_match(self@.magic, header@) {
                Some(f) => r matches Some(g) && g@ == f,
                None => r is None,
            },
    {
        let ghost magic = self@.magic;
        let mut i: usize = 0;
        assert(magic.skip(0) =~= magic);
        while i < self.magic_signatures.len()
            invariant
                i <= self.magic_signatures@.len(),
                magic == magic_view(self.magic_signatures@),
                first_magic_match(magic, header@) == first_magic_match(magic.skip(i as int), header@),
            decreases self.magic_signatures@.len() - i,
        {
            let offset = self.magic_signatures[i].0;
            let sig = &self.magic_signatures[i].1;
            assert(magic.skip(i as int)[0] == magic[i as int]);
            if bytes_at(header, offset, sig.as_slice()) {
                return Some(self.magic_signatures[i].2.clone());
            }
            assert(magic.skip(i as int).drop_first() =~= magic.skip(i + 1));
            i = i + 1;
        }
        None
    }

    /// The format registered for the extension of `path`, if it has one.
    pub fn detect_by_extension(&self, path: &Path) -> (r: Option<FormatId>)
        ensures
            match extension_format(self@, extension_of(path)) {
                Some(f) => r matches Some(g) && g@ == f,
                None => r is None,
            },
    {
        match path_extension(path) {
            Some(ext) => self.lookup_extension(ext.as_str()),
            None => None,
        }
    }

    /// The format registered for an extension; case does not matter.
    pub fn lookup_extension(&self, ext: &str) -> (r: Option<FormatId>)
        ensures
            match r {
                Some(f) => self@.extensions.dom().contains(lowercase(ext@)) && self@.extensions[lowercase(ext@)] == f@,
                None => !self@.extensions.dom().contains(lowercase(ext@)),
            },
    {
        proof { use_type_invariant(self); }
        let key = to_lowercase(ext);
        proof { lemma_assoc_dom(ext_view(self.extension_map@), key@); }
        match ext_find(&self.extension_map, &key) {
            Some(i) => {
                proof {
                    lemma_assoc_lookup(ext_view(self.extension_map@), i as int);
                    assert(ext_view(self.extension_map@)[i as int].0 == key@);
                }
                Some(self.extension_map[i].1.clone())
            },
            None => None,
        }
    }

    /// Detect the format of a file: magic bytes first, then the extension.
    pub fn detect(&self, path: &Path, header: &[u8]) -> (r: Result<FormatId, CoreError>)
        ensures
            match detection(self@, header@, extension_of(path)) {
                Some(f) => r matches Ok(g) && g@ == f,
                None => r matches Err(CoreError::DetectionFailed { reason }) && reason@ == detection_failure(
                    display_of(path),
                ),
            },
    {
        if let Some(format) = self.detect_by_magic(header) {
            return Ok(format);
        }
        if let Some(format) = self.detect_by_extension(path) {
            return Ok(format);
        }
        let shown = path_display(path);
        proof {
            reveal_strlit("Could not detect format for: ");
        }
        Err(CoreError::DetectionFailed { reason: concat("Could not detect format for: ", shown.as_str()) })
    }

    /// Register a format's magic bytes; it is tried after every signature already registered.
    pub fn register_magic(&mut self, offset: usize, signature: Vec<u8>, format: FormatId)
        ensures
            final(self)@.magic == old(self)@.magic.push((offset, signature@, format@)),
            final(self)@.extensions == old(self)@.extensions,
    {
        proof { use_type_invariant(&*self); }
        let ghost sv = signature@;
        let ghost fv = format@;
        let mut sigs: Vec<(usize, Vec<u8>, FormatId)> = Vec::new();
        std::mem::swap(&mut sigs, &mut self.magic_signatures);
        sigs.push((offset, signature, format));
        std::mem::swap(&mut sigs, &mut self.magic_signatures);
        proof {
            assert(magic_view(self.magic_signatures@) =~= magic_view(old(self).magic_signatures@).push((offset, sv, fv)));
        }
    }

    /// Register a format's file extensions, lower-cased; a later registration of
    /// an extension replaces an earlier one.
    pub fn register_extensions(&mut self, format: &FormatId)
        ensures
            final(self)@.magic == old(self)@.magic,
            final(self)@.extensions == insert_extensions(old(self)@.extensions, format@.extensions, format@),
    {
        proof { use_type_invariant(&*self); }
        let ghost exts = format@.extensions;
        let mut i: usize = 0;
        let mut entries: Vec<(String, FormatId)> = Vec::new();
        std::mem::swap(&mut entries, &mut self.extension_map);
        proof {
            assert(exts.take(0) =~= Seq::<Seq<char>>::empty());
        }
        while i < format.extensions.len()
            invariant
                i <= format.extensions@.len(),
                exts == format@.extensions,
                exts.len() == format.extensions@.len(),
                keys_unique(ext_view(entries@)),
                assoc_map(ext_view(entries@)) == insert_extensions(old(self)@.extensions, exts.take(i as int), format@),
            decreases format.extensions@.len() - i,
        {
            let key = to_lowercase(format.extensions[i].as_str());
            let ghost before = ext_view(entries@);
            let value = format.clone();
            proof {
                assert(exts[i as int] == format.extensions@[i as int]@);
                assert(exts.take(i + 1).drop_last() =~= exts.take(i as int));
                assert(exts.take(i + 1).last() == exts[i as int]);
            }
            match ext_find(&entries, &key) {
                Some(j) => {
                    let ghost kv = key@;
                    let ghost vv = value@;
                    entries.set(j, (key, value));
                    proof {
                        assert(before[j as int].0 == kv);
                        lemma_assoc_update(before, j as int, vv);
                        assert(ext_view(entries@) =~= before.update(j as int, (before[j as int].0, vv)));
                    }
                },
                None => {
                    let ghost kv = key@;
                    let ghost vv = value@;
                    entries.push((key, value));
                    proof {
                        lemma_assoc_push(before, kv, vv);
                        assert(ext_view(entries@) =~= before.push((kv, vv)));
                    }
                },
            }
            i = i + 1;
        }
        proof {
            assert(exts.take(i as int) =~= exts);
        }
        self.extension_map = entries;
    }

    /// Register all built-in format signatures and extensions.
    fn register_built_in_formats(&mut self)
        ensures
            final(self)@.magic == old(self)@.magic + builtin_magic(),
            final(self)@.extensions == builtin_extensions(old(self)@.extensions),
    {
        self.register_image();
        self.register_audio();
        self.register_video();
        self.register_document();
        self.register_archive();
        self.register_structured_data();
        self.register_font();
        proof {
            assert(builtin_magic() =~= image_magic() + audio_magic() + video_magic() + document_magic()
                + archive_magic() + structured_data_magic() + font_magic());
            assert(old(self)@.magic + builtin_magic() =~= old(self)@.magic + image_magic() + audio_magic()
                + video_magic() + document_magic() + archive_magic() + structured_data_magic() + font_magic());
        }
    }
}

/// `sig` lies in `header` at `offset`.
fn bytes_at(header: &[u8], offset: usize, sig: &[u8]) -> (r: bool)
    ensures
        r == signature_matches(header@, offset as int, sig@),
{
    let n = header.len();
    let m = sig.len();
    if offset > n || m > n - offset {
        return false;
    }
    let mut j: usize = 0;
    while j < m
        invariant
            n == header@.len(),
            m == sig@.len(),
            offset + m <= n,
            j <= m,
            forall|k: int| 0 <= k < j ==> header@[offset + k] == sig@[k],
        decreases m - j,
    {
        if header[offset + j] != sig[j] {
            assert(header@.subrange(offset as int, offset + m)[j as int] != sig@[j as int]);
            return false;
        }
        j = j + 1;
    }
    assert(header@.subrange(offset as int, offset + m) =~= sig@);
    true
}

} // verus!
