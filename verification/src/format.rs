//! Format identification and the static description of converter plugins.
use vstd::prelude::*;
use crate::text::{
    lowercase, eq_ignore_ascii_case, to_lowercase, str_eq, str_eq_ignore_ascii_case, is_ascii_text, ascii_lowercase,
};

verus! {

#[verifier::external_type_specification]
#[verifier::external_body]
pub struct ExSemverVersion(semver::Version);

/// The characters of each string in a sequence.
pub open spec fn strings_view(v: Seq<String>) -> Seq<Seq<char>> {
    v.map_values(|s: String| s@)
}

/// The characters of each string slice in a sequence.
pub open spec fn strs_view(v: Seq<&str>) -> Seq<Seq<char>> {
    v.map_values(|s: &str| s@)
}

/// Unique identifier for a file format: its MIME type (primary identifier),
/// the file extensions it goes by (without dots) and a human-readable name.
#[derive(Debug)]
pub struct FormatId {
    pub mime: String,
    pub extensions: Vec<String>,
    pub display_name: String,
}

/// The mathematical content of a [`FormatId`].
pub struct FormatSpec {
    pub mime: Seq<char>,
    pub extensions: Seq<Seq<char>>,
    pub display_name: Seq<char>,
}

impl View for FormatId {
    type V = FormatSpec;

    open spec fn view(&self) -> FormatSpec {
        FormatSpec {
            mime: self.mime@,
            extensions: strings_view(self.extensions@),
            display_name: self.display_name@,
        }
    }
}

impl Clone for FormatId {
    fn clone(&self) -> (r: Self)
        ensures
            r@ == self@,
    {
        let extensions = self.extensions.clone();
        assert(extensions@ =~= self.extensions@);
        FormatId { mime: self.mime.clone(), extensions, display_name: self.display_name.clone() }
    }
}

/// Copies a list of strings, keeping their characters.
pub fn clone_strings(v: &Vec<String>) -> (r: Vec<String>)
    ensures
        r@ == v@,
{
    let r = v.clone();
    assert(r@ =~= v@);
    r
}

/// Copies a list of formats, keeping each one's content.
pub fn clone_formats(v: &Vec<FormatId>) -> (r: Vec<FormatId>)
    ensures
        r.len() == v.len(),
        forall|i: int| 0 <= i < v.len() ==> #[trigger] r[i]@ == v[i]@,
{
    let mut r: Vec<FormatId> = Vec::new();
    let mut i: usize = 0;
    while i < v.len()
        invariant
            i <= v.len(),
            r.len() == i,
            forall|j: int| 0 <= j < i ==> #[trigger] r[j]@ == v[j]@,
        decreases v.len() - i,
    {
        r.push(v[i].clone());
        i = i + 1;
    }
    r
}

/// The extension `ext` and every extension of `f` are ASCII text.
pub open spec fn all_ascii(f: FormatSpec, ext: Seq<char>) -> bool {
    is_ascii_text(ext) && forall|j: int| 0 <= j < f.extensions.len() ==> is_ascii_text(#[trigger] f.extensions[j])
}

/// The extension `ext` names the format `f`, compared after lower-casing both.
pub open spec fn spec_matches_extension(f: FormatSpec, ext: Seq<char>) -> bool {
    exists|i: int| 0 <= i < f.extensions.len() && lowercase(#[trigger] f.extensions[i]) == lowercase(ext)
}

impl FormatId {
    pub fn new(mime: &str, extensions: &[&str], display_name: &str) -> (r: Self)
        ensures
            r@ == (FormatSpec { mime: mime@, extensions: strs_view(extensions@), display_name: display_name@ }),
    {
        let mut exts: Vec<String> = Vec::new();
        let mut i: usize = 0;
        while i < extensions.len()
            invariant
                i <= extensions@.len(),
                exts@.len() == i,
                forall|j: int| 0 <= j < i ==> #[trigger] exts@[j]@ == extensions@[j]@,
            decreases extensions@.len() - i,
        {
            exts.push(String::from_str(extensions[i]));
            i = i + 1;
        }
        assert(strings_view(exts@) =~= strs_view(extensions@));
        FormatId {
            mime: String::from_str(mime),
            extensions: exts,
            display_name: String::from_str(display_name),
        }
    }

    /// Whether this format goes by the given extension; case does not matter.
    pub fn matches_extension(&self, ext: &str) -> (r: bool)
        ensures
            r == spec_matches_extension(self@, ext@),
            all_ascii(self@, ext@) ==> r == exists|j: int|
                0 <= j < self@.extensions.len() && ascii_lowercase(#[trigger] self@.extensions[j]) == ascii_lowercase(ext@),
    {
        let ghost asc = all_ascii(self@, ext@);
        let ext_lower = to_lowercase(ext);
        let mut i: usize = 0;
        while i < self.extensions.len()
            invariant
                i <= self.extensions@.len(),
                ext_lower@ == lowercase(ext@),
                asc == all_ascii(self@, ext@),
                asc ==> ext_lower@ == ascii_lowercase(ext@),
                forall|j: int| 0 <= j < i ==> lowercase(#[trigger] self.extensions@[j]@) != lowercase(ext@),
                asc ==> forall|j: int| 0 <= j < i ==> ascii_lowercase(#[trigger] self@.extensions[j]) != ascii_lowercase(ext@),
            decreases self.extensions@.len() - i,
        {
            let e = to_lowercase(self.extensions[i].as_str());
            proof {
                assert(self@.extensions[i as int] == self.extensions@[i as int]@);
            }
            if str_eq(e.as_str(), ext_lower.as_str()) {
                return true;
            }
            i = i + 1;
        }
        assert forall|j: int| 0 <= j < self@.extensions.len() implies lowercase(#[trigger] self@.extensions[j]) != lowercase(ext@) by {
            assert(self@.extensions[j] == self.extensions@[j]@);
        }
        false
    }

    /// Whether this format has the given MIME type, ASCII letters compared without case.
    pub fn matches_mime(&self, mime: &str) -> (r: bool)
        ensures
            r == eq_ignore_ascii_case(self.mime@, mime@),
    {
        str_eq_ignore_ascii_case(self.mime.as_str(), mime)
    }

    /// The text a format is shown as: its display name.
    pub fn to_display_string(&self) -> (r: String)
        ensures
            r@ == self.display_name@,
    {
        self.display_name.clone()
    }
}

/// What a plugin can preserve of metadata during conversion.
#[derive(Debug, Clone, Copy, PartialEq, Eq)]
pub enum MetadataSupport {
    /// Metadata is not preserved.
    NotSupported,
    ReadOnly,
    ReadWrite,
    /// Can transform metadata between different format-specific schemas
    ReadWriteTransform,
}

/// How much document structure a plugin preserves.
#[derive(Debug, Clone, Copy, PartialEq, Eq)]
pub enum StructureSupport {
    /// No structure (e.g., plain text)
    Flat,
    /// Sections, headings, nesting
    Hierarchical,
    /// Tables, cross-references
    Relational,
}

/// Whether embedded assets survive a conversion.
#[derive(Debug, Clone, Copy, PartialEq, Eq)]
pub enum EmbeddedAssetSupport {
    /// Embedded assets are dropped.
    NotSupported,
    /// Can extract but not embed
    Extract,
    /// Can both extract and embed
    ExtractAndEmbed,
}

/// Colour spaces a plugin can handle.
#[derive(Debug, Clone, Copy, PartialEq, Eq)]
pub enum ColorSpace {
    Gray,
    GrayAlpha,
    Rgb,
    Rgba,
    Cmyk,
    YCbCr,
    Lab,
    Hsl,
    Hsv,
    Indexed,
}

/// What a plugin can preserve during conversion.
#[derive(Debug, Clone)]
pub struct Capabilities {
    pub metadata: MetadataSupport,
    pub structure: StructureSupport,
    pub embedded_assets: EmbeddedAssetSupport,
    pub color_spaces: Vec<ColorSpace>,
    pub max_dimension: Option<(u32, u32)>,
    pub max_bit_depth: Option<u8>,
    pub supports_animation: bool,
    pub supports_transparency: bool,
    pub supports_multi_page: bool,
}

impl Default for Capabilities {
    fn default() -> (r: Self)
        ensures
            r.metadata == MetadataSupport::NotSupported,
            r.structure == StructureSupport::Flat,
            r.embedded_assets == EmbeddedAssetSupport::NotSupported,
            r.color_spaces@.len() == 0,
            r.max_dimension is None,
            r.max_bit_depth is None,
            !r.supports_animation,
            !r.supports_transparency,
            !r.supports_multi_page,
    {
        Capabilities {
            metadata: MetadataSupport::NotSupported,
            structure: StructureSupport::Flat,
            embedded_assets: EmbeddedAssetSupport::NotSupported,
            color_spaces: Vec::new(),
            max_dimension: None,
            max_bit_depth: None,
            supports_animation: false,
            supports_transparency: false,
            supports_multi_page: false,
        }
    }
}

/// Where a plugin runs.
#[derive(Debug, Clone, Copy, PartialEq, Eq)]
pub enum SandboxMode {
    /// Runs in WASM sandbox (preferred for safety)
    Wasm,
    /// Runs in separate process (for plugins needing native libs)
    Process,
    /// Runs in main process (only for trusted core plugins)
    InProcess,
}

/// A dependency a plugin declares. The version requirement is kept in its
/// textual form (as `semver::VersionReq` writes and parses it).
#[derive(Debug, Clone)]
pub struct Dependency {
    pub name: String,
    pub version_req: String,
    pub optional: bool,
}

/// Static metadata about a plugin, declared at load time.
#[derive(Debug)]
pub struct PluginManifest {
    /// Unique identifier, e.g. "core-png-decoder"
    pub id: String,
    pub version: semver::Version,
    /// Plugin API version this plugin was built against
    pub api_version: semver::Version,
    pub author: String,
    pub license: String,
    pub description: String,
    /// Formats this plugin can decode
    pub input_formats: Vec<FormatId>,
    /// Formats this plugin can encode
    pub output_formats: Vec<FormatId>,
    pub capabilities: Capabilities,
    pub dependencies: Vec<Dependency>,
    /// Higher = preferred when multiple plugins handle same format
    pub priority: i32,
    /// Self-declared fidelity score (0–100)
    pub fidelity_score: u8,
    pub known_limitations: Vec<String>,
    pub sandbox_mode: SandboxMode,
}

/// Trusted: `semver::Version`'s derived `Clone`. It copies the three numbers and
/// copies the pre-release and build identifiers by their content (a new allocation
/// holding the same text, as `String::clone` does), so the copy is the same version.
pub assume_specification[ <semver::Version as Clone>::clone ](v: &semver::Version) -> (r: semver::Version)
    ensures
        r == *v,
;

impl Clone for PluginManifest {
    fn clone(&self) -> (r: Self)
        ensures
            r@ == self@,
    {
        let input_formats = clone_formats(&self.input_formats);
        let output_formats = clone_formats(&self.output_formats);
        proof {
            assert(formats_view(input_formats@) =~= formats_view(self.input_formats@));
            assert(formats_view(output_formats@) =~= formats_view(self.output_formats@));
        }
        PluginManifest {
            id: self.id.clone(),
            version: self.version.clone(),
            api_version: self.api_version.clone(),
            author: self.author.clone(),
            license: self.license.clone(),
            description: self.description.clone(),
            input_formats,
            output_formats,
            capabilities: self.capabilities.clone(),
            dependencies: self.dependencies.clone(),
            priority: self.priority,
            fidelity_score: self.fidelity_score,
            known_limitations: clone_strings(&self.known_limitations),
            sandbox_mode: self.sandbox_mode,
        }
    }
}

/// The part of a manifest that routing and lookup read.
pub struct ManifestSpec {
    pub id: Seq<char>,
    pub input_formats: Seq<FormatSpec>,
    pub output_formats: Seq<FormatSpec>,
    pub priority: i32,
    pub fidelity_score: u8,
}

pub open spec fn formats_view(v: Seq<FormatId>) -> Seq<FormatSpec> {
    v.map_values(|f: FormatId| f@)
}

impl View for PluginManifest {
    type V = ManifestSpec;

    open spec fn view(&self) -> ManifestSpec {
        ManifestSpec {
            id: self.id@,
            input_formats: formats_view(self.input_formats@),
            output_formats: formats_view(self.output_formats@),
            priority: self.priority,
            fidelity_score: self.fidelity_score,
        }
    }
}

/// The plugin decodes a format with exactly this MIME type.
pub open spec fn decodes(m: ManifestSpec, mime: Seq<char>) -> bool {
    exists|i: int| 0 <= i < m.input_formats.len() && (#[trigger] m.input_formats[i]).mime == mime
}

/// The plugin encodes a format with exactly this MIME type.
pub open spec fn encodes(m: ManifestSpec, mime: Seq<char>) -> bool {
    exists|i: int| 0 <= i < m.output_formats.len() && (#[trigger] m.output_formats[i]).mime == mime
}

/// Whether one of `formats` has exactly the MIME type `mime`.
pub fn any_mime(formats: &Vec<FormatId>, mime: &str) -> (r: bool)
    ensures
        r == exists|i: int| 0 <= i < formats@.len() && (#[trigger] formats@[i]).mime@ == mime@,
{
    let mut i: usize = 0;
    while i < formats.len()
        invariant
            i <= formats@.len(),
            forall|j: int| 0 <= j < i ==> (#[trigger] formats@[j]).mime@ != mime@,
        decreases formats@.len() - i,
    {
        if str_eq(formats[i].mime.as_str(), mime) {
            return true;
        }
        i = i + 1;
    }
    false
}

impl PluginManifest {
    /// Returns true if this plugin can decode the given format (same MIME type).
    pub fn can_decode(&self, format: &FormatId) -> (r: bool)
        ensures
            r == decodes(self@, format.mime@),
    {
        let r = any_mime(&self.input_formats, format.mime.as_str());
        proof {
            if r {
                let i = choose|i: int| 0 <= i < self.input_formats@.len() && (#[trigger] self.input_formats@[i]).mime@ == format.mime@;
                assert(self@.input_formats[i] == self.input_formats@[i]@);
            } else {
                assert forall|i: int| 0 <= i < self@.input_formats.len() implies (#[trigger] self@.input_formats[i]).mime != format.mime@ by {
                    assert(self@.input_formats[i] == self.input_formats@[i]@);
                }
            }
        }
        r
    }

    /// Returns true if this plugin can encode the given format (same MIME type).
    pub fn can_encode(&self, format: &FormatId) -> (r: bool)
        ensures
            r == encodes(self@, format.mime@),
    {
        let r = any_mime(&self.output_formats, format.mime.as_str());
        proof {
            if r {
                let i = choose|i: int| 0 <= i < self.output_formats@.len() && (#[trigger] self.output_formats@[i]).mime@ == format.mime@;
                assert(self@.output_formats[i] == self.output_formats@[i]@);
            } else {
                assert forall|i: int| 0 <= i < self@.output_formats.len() implies (#[trigger] self@.output_formats[i]).mime != format.mime@ by {
                    assert(self@.output_formats[i] == self.output_formats@[i]@);
                }
            }
        }
        r
    }
}

/// Result of probing a file to detect its format.
#[derive(Debug)]
pub struct ProbeResult {
    /// Confidence score 0–100
    pub confidence: u8,
    pub detected_format: FormatId,
    pub format_version: Option<String>,
    pub estimated_size: Option<u64>,
    pub warnings: Vec<String>,
}

/// Result of encoding an IR into a target format.
#[derive(Debug, Clone)]
pub struct ConversionOutput {
    pub bytes_written: u64,
    pub checksum: String,
    pub warnings: Vec<String>,
    /// Self-estimated fidelity (0–100)
    pub fidelity_estimate: u8,
}

/// How layers of an image are combined.
#[derive(Debug, Clone, Copy, PartialEq, Eq)]
pub enum BlendMode {
    Normal,
    Multiply,
    Screen,
    Overlay,
    Darken,
    Lighten,
    ColorDodge,
    ColorBurn,
    HardLight,
    SoftLight,
    Difference,
    Exclusion,
    Hue,
    Saturation,
    Color,
    Luminosity,
}

/// How an animation frame is drawn over the previous one.
#[derive(Debug, Clone, Copy, PartialEq, Eq)]
pub enum BlendMethod {
    Source,
    Over,
}

/// What happens when an output file already exists.
#[derive(Debug, Clone, Copy, PartialEq, Eq)]
pub enum ConflictResolution {
    Overwrite,
    Rename,
    Skip,
    Ask,
}

impl Default for ConflictResolution {
    fn default() -> (r: Self)
        ensures
            r == ConflictResolution::Rename,
    {
        ConflictResolution::Rename
    }
}

} // verus!
