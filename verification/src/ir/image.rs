//! The image representation. Covers PNG, JPEG, WebP, BMP, TIFF, GIF, ICO, AVIF,
//! HEIF, JPEG2000, QOI. Floating-point values are kept as their IEEE-754 bit patterns.
use vstd::prelude::*;
use std::collections::HashMap;
use crate::ir::{api_version, version_of};
use crate::ir::sums::{sum_of, all_nonneg, lemma_sum_step, lemma_sum_all};
use crate::ir::traits::{IntermediateRepresentation, ValidationError, ValidationSeverity, issue, issues_view};

verus! {

/// An image: dimensions, pixel layout, pixels, metadata, layers and animation.
#[derive(Debug, Clone)]
pub struct ImageIR {
    pub version: semver::Version,
    pub dimensions: Dimensions,
    pub color_space: ColorSpace,
    pub bit_depth: BitDepth,
    pub alpha: AlphaChannel,
    pub pixels: PixelData,
    pub metadata: ImageMetadata,
    pub layers: Option<Vec<Layer>>,
    pub animation: Option<Animation>,
    pub icc_profile: Option<Vec<u8>>,
    pub exif: Option<ExifData>,
    pub xmp: Option<String>,
}

/// Width and height in pixels; resolution as the bit patterns of `f64` values.
#[derive(Debug, Clone)]
pub struct Dimensions {
    pub width: u32,
    pub height: u32,
    pub dpi_x: Option<u64>,
    pub dpi_y: Option<u64>,
}

#[derive(Debug, Clone, Copy, PartialEq, Eq, Structural)]
pub enum ColorSpace {
    Gray,
    GrayAlpha,
    Rgb,
    Rgba,
    Cmyk,
    YCbCr,
    Lab,
    Hsl,
    Hsv,
    Indexed { palette_size: u32 },
}

#[derive(Debug, Clone, Copy, PartialEq, Eq, Structural)]
pub enum BitDepth {
    U1,
    U2,
    U4,
    U8,
    U16,
    U32,
    F16,
    F32,
}

/// Bits per channel sample of each bit depth.
pub open spec fn bits_of(d: BitDepth) -> u8 {
    match d {
        BitDepth::U1 => 1,
        BitDepth::U2 => 2,
        BitDepth::U4 => 4,
        BitDepth::U8 => 8,
        BitDepth::U16 => 16,
        BitDepth::U32 => 32,
        BitDepth::F16 => 16,
        BitDepth::F32 => 32,
    }
}

impl BitDepth {
    pub fn bits_per_sample(&self) -> (r: u8)
        ensures
            r == bits_of(*self),
    {
        match self {
            BitDepth::U1 => 1,
            BitDepth::U2 => 2,
            BitDepth::U4 => 4,
            BitDepth::U8 => 8,
            BitDepth::U16 => 16,
            BitDepth::U32 => 32,
            BitDepth::F16 => 16,
            BitDepth::F32 => 32,
        }
    }
}

/// How the alpha channel is stored, if there is one.
#[derive(Debug, Clone, Copy, PartialEq, Eq, Structural)]
pub enum AlphaChannel {
    NoAlpha,
    Straight,
    Premultiplied,
}

/// Pixel storage. `RawF32` holds the bit patterns of `f32` samples.
#[derive(Debug, Clone)]
pub enum PixelData {
    /// Raw interleaved pixel buffer (R,G,B,A,R,G,B,A,...)
    Raw(Vec<u8>),
    /// For very large images: tile-based storage
    Tiled { tile_width: u32, tile_height: u32, tiles: Vec<Tile> },
    /// 16-bit per channel interleaved
    Raw16(Vec<u16>),
    /// 32-bit float per channel interleaved
    RawF32(Vec<u32>),
}

#[derive(Debug, Clone)]
pub struct Tile {
    pub x: u32,
    pub y: u32,
    pub data: Vec<u8>,
}

#[derive(Debug, Clone)]
pub struct ImageMetadata {
    pub format_name: String,
    pub format_version: Option<String>,
    pub has_transparency: bool,
    pub is_interlaced: bool,
    pub compression: Option<CompressionInfo>,
    pub color_count: Option<u32>,
    pub comment: Option<String>,
}

/// Compression details; the ratio is the bit pattern of an `f64`.
#[derive(Debug, Clone)]
pub struct CompressionInfo {
    pub algorithm: String,
    pub level: Option<u32>,
    pub ratio: Option<u64>,
}

/// A layer; the opacity is the bit pattern of an `f32`.
#[derive(Debug)]
pub struct Layer {
    pub name: String,
    pub visible: bool,
    pub opacity: u32,
    pub blend_mode: BlendMode,
    pub offset: (i32, i32),
    pub pixels: PixelData,
}

impl Clone for Layer {
    fn clone(&self) -> (r: Self)
        ensures
            r.name == self.name,
            r.visible == self.visible,
            r.opacity == self.opacity,
            r.blend_mode == self.blend_mode,
            r.offset == self.offset,
    {
        Layer {
            name: self.name.clone(),
            visible: self.visible,
            opacity: self.opacity,
            blend_mode: self.blend_mode,
            offset: self.offset,
            pixels: self.pixels.clone(),
        }
    }
}

#[derive(Debug, Clone, Copy, PartialEq, Eq, Structural)]
pub enum BlendMode {
    Normal,
    Multiply,
    Screen,
    Overlay,
    Darken,
    Lighten,
    ColorDodge,
    ColorBurn,
    HardLight,
    SoftLight,
    Difference,
    Exclusion,
    Hue,
    Saturation,
    Color,
    Luminosity,
}

#[derive(Debug, Clone)]
pub struct Animation {
    pub frames: Vec<AnimationFrame>,
    pub loop_count: Option<u32>,
    pub default_delay_ms: u32,
}

#[derive(Debug, Clone)]
pub struct AnimationFrame {
    pub pixels: PixelData,
    pub delay_ms: u32,
    pub dispose_method: DisposeMethod,
    pub blend_method: BlendMethod,
}

/// What happens to a frame's area before the next frame is drawn.
#[derive(Debug, Clone, Copy, PartialEq, Eq, Structural)]
pub enum DisposeMethod {
    NoDispose,
    RestoreBackground,
    RestorePrevious,
}

#[derive(Debug, Clone, Copy, PartialEq, Eq, Structural)]
pub enum BlendMethod {
    Source,
    Over,
}

/// EXIF data; the exposure figures and coordinates are bit patterns of `f64` values.
#[derive(Debug, Clone)]
pub struct ExifData {
    pub make: Option<String>,
    pub model: Option<String>,
    pub software: Option<String>,
    pub datetime: Option<String>,
    pub exposure_time: Option<String>,
    pub f_number: Option<u64>,
    pub iso_speed: Option<u32>,
    pub focal_length: Option<u64>,
    pub orientation: Option<u16>,
    pub width: Option<u32>,
    pub height: Option<u32>,
    pub gps: Option<GpsData>,
    pub custom: HashMap<String, String>,
}

/// GPS coordinates as bit patterns of `f64` values.
#[derive(Debug, Clone)]
pub struct GpsData {
    pub latitude: u64,
    pub longitude: u64,
    pub altitude: Option<u64>,
}

/// Channels per pixel of each color space.
pub open spec fn channels_of(c: ColorSpace) -> u8 {
    match c {
        ColorSpace::Gray => 1,
        ColorSpace::GrayAlpha => 2,
        ColorSpace::Rgb => 3,
        ColorSpace::Rgba => 4,
        ColorSpace::Cmyk => 4,
        ColorSpace::YCbCr => 3,
        ColorSpace::Lab => 3,
        ColorSpace::Hsl => 3,
        ColorSpace::Hsv => 3,
        ColorSpace::Indexed { .. } => 1,
    }
}

/// Bytes held by a tile list.
pub open spec fn tile_sizes(t: Seq<Tile>) -> Seq<int> {
    t.map_values(|x: Tile| x.data@.len() as int)
}

/// The raw size of an image's pixels: its pixel count times bits per pixel, rounded up
/// to whole bytes.
pub open spec fn raw_size(ir: ImageIR) -> int {
    (ir.dimensions.width * ir.dimensions.height * (bits_of(ir.bit_depth) * channels_of(ir.color_space)) + 7) / 8
}

/// Bytes a pixel store takes: one per 8-bit, two per 16-bit, four per 32-bit sample.
pub open spec fn pixel_bytes(p: PixelData) -> int {
    match p {
        PixelData::Raw(d) => d@.len() as int,
        PixelData::Raw16(d) => 2 * (d@.len() as int),
        PixelData::RawF32(d) => 4 * (d@.len() as int),
        PixelData::Tiled { tiles, .. } => sum_of(tile_sizes(tiles@)),
    }
}

pub open spec fn layer_sizes(l: Seq<Layer>) -> Seq<int> {
    l.map_values(|x: Layer| pixel_bytes(x.pixels))
}

pub open spec fn frame_sizes(f: Seq<AnimationFrame>) -> Seq<int> {
    f.map_values(|x: AnimationFrame| pixel_bytes(x.pixels))
}

/// The memory estimate of an image: its pixels, its layers' and frames' pixels, its
/// ICC profile, and 1 KiB for metadata.
pub open spec fn image_memory(ir: ImageIR) -> int {
    pixel_bytes(ir.pixels) + (match ir.layers {
        Some(l) => sum_of(layer_sizes(l@)),
        None => 0,
    }) + (match ir.animation {
        Some(a) => sum_of(frame_sizes(a.frames@)),
        None => 0,
    }) + (match ir.icc_profile {
        Some(p) => p@.len() as int,
        None => 0,
    }) + 1024
}

/// The problems `validate` reports for an image, in order.
pub open spec fn image_issues(ir: ImageIR) -> Seq<(Seq<char>, Seq<char>, ValidationSeverity)> {
    let a: Seq<(Seq<char>, Seq<char>, ValidationSeverity)> = if ir.dimensions.width == 0 {
        seq![("dimensions.width"@, "Width must be > 0"@, ValidationSeverity::Error)]
    } else {
        seq![]
    };
    let b = if ir.dimensions.height == 0 {
        a.push(("dimensions.height"@, "Height must be > 0"@, ValidationSeverity::Error))
    } else {
        a
    };
    let c = if ir.dimensions.width > 65535 || ir.dimensions.height > 65535 {
        b.push(("dimensions"@, "Dimensions exceed maximum (65535x65535)"@, ValidationSeverity::Warning))
    } else {
        b
    };
    match ir.animation {
        Some(anim) => if anim.frames@.len() == 0 {
            c.push(("animation.frames"@, "Animation has no frames"@, ValidationSeverity::Error))
        } else {
            c
        },
        None => c,
    }
}

/// Whether a pixel store holds no samples (or no tiles).
pub open spec fn pixels_empty(p: PixelData) -> bool {
    match p {
        PixelData::Raw(d) => d@.len() == 0,
        PixelData::Raw16(d) => d@.len() == 0,
        PixelData::RawF32(d) => d@.len() == 0,
        PixelData::Tiled { tiles, .. } => tiles@.len() == 0,
    }
}

/// Bytes a pixel store takes.
fn pixel_data_bytes(p: &PixelData) -> (r: u64)
    requires
        pixel_bytes(*p) <= u64::MAX,
    ensures
        r == pixel_bytes(*p),
{
    match p {
        PixelData::Raw(d) => d.len() as u64,
        PixelData::Raw16(d) => d.len() as u64 * 2,
        PixelData::RawF32(d) => d.len() as u64 * 4,
        PixelData::Tiled { tiles, .. } => {
            let ghost s = tile_sizes(tiles@);
            proof {
                assert(all_nonneg(s));
            }
            let mut acc: u64 = 0;
            let mut i: usize = 0;
            proof {
                assert(s.take(0) =~= Seq::<int>::empty());
            }
            while i < tiles.len()
                invariant
                    i <= tiles@.len(),
                    s == tile_sizes(tiles@),
                    all_nonneg(s),
                    sum_of(s) <= u64::MAX,
                    acc == sum_of(s.take(i as int)),
                decreases tiles@.len() - i,
            {
                proof {
                    lemma_sum_step(s, i as int);
                }
                acc = acc + tiles[i].data.len() as u64;
                i = i + 1;
            }
            proof {
                lemma_sum_all(s);
            }
            acc
        },
    }
}

/// Bytes the pixels of a list of layers take.
fn layers_bytes(layers: &Vec<Layer>) -> (r: u64)
    requires
        sum_of(layer_sizes(layers@)) <= u64::MAX,
    ensures
        r == sum_of(layer_sizes(layers@)),
{
    let ghost s = layer_sizes(layers@);
    proof {
        assert forall|i: int| 0 <= i < s.len() implies #[trigger] s[i] >= 0 by {
            lemma_pixel_bytes_nonneg(layers@[i].pixels);
        }
        assert(s.take(0) =~= Seq::<int>::empty());
    }
    let mut acc: u64 = 0;
    let mut i: usize = 0;
    while i < layers.len()
        invariant
            i <= layers@.len(),
            s == layer_sizes(layers@),
            all_nonneg(s),
            sum_of(s) <= u64::MAX,
            acc == sum_of(s.take(i as int)),
        decreases layers@.len() - i,
    {
        proof {
            lemma_sum_step(s, i as int);
        }
        acc = acc + pixel_data_bytes(&layers[i].pixels);
        i = i + 1;
    }
    proof {
        lemma_sum_all(s);
    }
    acc
}

/// Bytes the pixels of a list of animation frames take.
fn frames_bytes(frames: &Vec<AnimationFrame>) -> (r: u64)
    requires
        sum_of(frame_sizes(frames@)) <= u64::MAX,
    ensures
        r == sum_of(frame_sizes(frames@)),
{
    let ghost s = frame_sizes(frames@);
    proof {
        assert forall|i: int| 0 <= i < s.len() implies #[trigger] s[i] >= 0 by {
            lemma_pixel_bytes_nonneg(frames@[i].pixels);
        }
        assert(s.take(0) =~= Seq::<int>::empty());
    }
    let mut acc: u64 = 0;
    let mut i: usize = 0;
    while i < frames.len()
        invariant
            i <= frames@.len(),
            s == frame_sizes(frames@),
            all_nonneg(s),
            sum_of(s) <= u64::MAX,
            acc == sum_of(s.take(i as int)),
        decreases frames@.len() - i,
    {
        proof {
            lemma_sum_step(s, i as int);
        }
        acc = acc + pixel_data_bytes(&frames[i].pixels);
        i = i + 1;
    }
    proof {
        lemma_sum_all(s);
    }
    acc
}

proof fn lemma_pixel_bytes_nonneg(p: PixelData)
    ensures
        pixel_bytes(p) >= 0,
{
    if let PixelData::Tiled { tiles, .. } = p {
        crate::ir::sums::lemma_sum_nonneg(tile_sizes(tiles@));
    }
}

impl ImageIR {
    /// An image of the given size and layout, with no pixels, no layers, no
    /// animation and empty metadata.
    pub fn new(width: u32, height: u32, color_space: ColorSpace, bit_depth: BitDepth) -> (r: Self)
        ensures
            r.version == version_of(1, 0, 0),
            r.dimensions.width == width,
            r.dimensions.height == height,
            r.dimensions.dpi_x is None,
            r.dimensions.dpi_y is None,
            r.color_space == color_space,
            r.bit_depth == bit_depth,
            r.alpha == AlphaChannel::NoAlpha,
            r.pixels matches PixelData::Raw(d) && d@.len() == 0,
            r.metadata.format_name@.len() == 0,
            r.metadata.format_version is None,
            !r.metadata.has_transparency,
            !r.metadata.is_interlaced,
            r.metadata.compression is None,
            r.metadata.color_count is None,
            r.metadata.comment is None,
            r.layers is None,
            r.animation is None,
            r.icc_profile is None,
            r.exif is None,
            r.xmp is None,
    {
        ImageIR {
            version: api_version(),
            dimensions: Dimensions { width, height, dpi_x: None, dpi_y: None },
            color_space,
            bit_depth,
            alpha: AlphaChannel::NoAlpha,
            pixels: PixelData::Raw(Vec::new()),
            metadata: ImageMetadata {
                format_name: String::new(),
                format_version: None,
                has_transparency: false,
                is_interlaced: false,
                compression: None,
                color_count: None,
                comment: None,
            },
            layers: None,
            animation: None,
            icc_profile: None,
            exif: None,
            xmp: None,
        }
    }

    /// The number of channels of the image's color space.
    pub fn channels(&self) -> (r: u8)
        ensures
            r == channels_of(self.color_space),
    {
        match self.color_space {
            ColorSpace::Gray => 1,
            ColorSpace::GrayAlpha => 2,
            ColorSpace::Rgb => 3,
            ColorSpace::Rgba => 4,
            ColorSpace::Cmyk => 4,
            ColorSpace::YCbCr => 3,
            ColorSpace::Lab => 3,
            ColorSpace::Hsl => 3,
            ColorSpace::Hsv => 3,
            ColorSpace::Indexed { .. } => 1,
        }
    }

    /// The total number of pixels.
    pub fn pixel_count(&self) -> (r: u64)
        ensures
            r == self.dimensions.width * self.dimensions.height,
    {
        let w = self.dimensions.width as u64;
        let h = self.dimensions.height as u64;
        assert(w * h <= 0xffff_ffffu64 * 0xffff_ffffu64) by (nonlinear_arith)
            requires
                w <= 0xffff_ffffu64,
                h <= 0xffff_ffffu64,
        ;
        w * h
    }

    /// The expected raw data size in bytes (interleaved, uncompressed): the bits of
    /// every sample of every pixel, rounded up to whole bytes.
    pub fn expected_data_size(&self) -> (r: u64)
        requires
            self.dimensions.width * self.dimensions.height * (bits_of(self.bit_depth) * channels_of(self.color_space)) + 7
                <= u64::MAX,
        ensures
            r == raw_size(*self),
    {
        let bpp = self.bit_depth.bits_per_sample() as u64 * self.channels() as u64;
        let n = self.pixel_count();
        assert(n * bpp + 7 <= u64::MAX);
        (n * bpp + 7) / 8
    }
}

impl IntermediateRepresentation for ImageIR {
    open spec fn usage_fits(&self) -> bool {
        image_memory(*self) <= u64::MAX
    }

    fn version(&self) -> (r: semver::Version)
        ensures
            r == self.version,
    {
        self.version.clone()
    }

    fn ir_type(&self) -> (r: &'static str)
        ensures
            r@ == "Image"@,
    {
        "Image"
    }

    /// The memory estimate: see [`image_memory`].
    fn memory_usage(&self) -> (r: u64)
        ensures
            r == image_memory(*self),
    {
        proof {
            lemma_pixel_bytes_nonneg(self.pixels);
            if let Some(l) = &self.layers {
                assert forall|i: int| 0 <= i < layer_sizes(l@).len() implies #[trigger] layer_sizes(l@)[i] >= 0 by {
                    lemma_pixel_bytes_nonneg(l@[i].pixels);
                }
                crate::ir::sums::lemma_sum_nonneg(layer_sizes(l@));
            }
            if let Some(a) = &self.animation {
                assert forall|i: int| 0 <= i < frame_sizes(a.frames@).len() implies #[trigger] frame_sizes(a.frames@)[i] >= 0 by {
                    lemma_pixel_bytes_nonneg(a.frames@[i].pixels);
                }
                crate::ir::sums::lemma_sum_nonneg(frame_sizes(a.frames@));
            }
        }
        let pixel = pixel_data_bytes(&self.pixels);
        let layer = match &self.layers {
            Some(l) => layers_bytes(l),
            None => 0,
        };
        let anim = match &self.animation {
            Some(a) => frames_bytes(&a.frames),
            None => 0,
        };
        let icc = match &self.icc_profile {
            Some(p) => p.len() as u64,
            None => 0,
        };
        pixel + layer + anim + icc + 1024
    }

    /// The problems found: see [`image_issues`].
    fn validate(&self) -> (r: Vec<ValidationError>)
        ensures
            issues_view(r@) == image_issues(*self),
    {
        let mut errors: Vec<ValidationError> = Vec::new();
        if self.dimensions.width == 0 {
            errors.push(issue("dimensions.width", "Width must be > 0", ValidationSeverity::Error));
        }
        if self.dimensions.height == 0 {
            errors.push(issue("dimensions.height", "Height must be > 0", ValidationSeverity::Error));
        }
        if self.dimensions.width > 65535 || self.dimensions.height > 65535 {
            errors.push(issue("dimensions", "Dimensions exceed maximum (65535x65535)", ValidationSeverity::Warning));
        }
        if let Some(anim) = &self.animation {
            if anim.frames.len() == 0 {
                errors.push(issue("animation.frames", "Animation has no frames", ValidationSeverity::Error));
            }
        }
        assert(issues_view(errors@) =~= image_issues(*self));
        errors
    }

    /// Whether the image holds no pixel samples.
    fn is_empty(&self) -> (r: bool)
        ensures
            r == pixels_empty(self.pixels),
    {
        match &self.pixels {
            PixelData::Raw(d) => d.len() == 0,
            PixelData::Raw16(d) => d.len() == 0,
            PixelData::RawF32(d) => d.len() == 0,
            PixelData::Tiled { tiles, .. } => tiles.len() == 0,
        }
    }
}

} // verus!
