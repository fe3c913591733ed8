//! The vector graphics representation. Covers SVG, EPS and AI (limited).
//! Floating-point values are kept as their IEEE-754 bit patterns.
use vstd::prelude::*;
use crate::ir::{api_version, version_of};
use crate::ir::traits::{IntermediateRepresentation, ValidationError, ValidationSeverity, issue, issues_view};

verus! {

/// Vector graphics: the canvas size, the view box, the elements, definitions and metadata.
#[derive(Debug)]
#[allow(non_snake_case)]
pub struct VectorIR {
    pub version: semver::Version,
    pub width: u64,
    pub height: u64,
    pub viewBox: Option<ViewBox>,
    pub elements: Vec<VectorElement>,
    pub defs: Vec<Def>,
    pub metadata: VectorMetadata,
}

#[derive(Debug, Clone)]
pub struct ViewBox {
    pub x: u64,
    pub y: u64,
    pub width: u64,
    pub height: u64,
}

#[derive(Debug)]
pub enum VectorElement {
    Path(Path),
    Rect(Rect),
    Circle(Circle),
    Ellipse(Ellipse),
    Line(Line),
    Polyline(Polyline),
    Polygon(Polygon),
    Text(TextElement),
    Group(Group),
    Image(VectorImageRef),
    Use(UseRef),
}

#[derive(Debug, Clone)]
pub struct Path {
    pub d: String,
    pub fill: Option<Paint>,
    pub stroke: Option<Paint>,
    pub stroke_width: Option<u64>,
    pub opacity: Option<u64>,
    pub transform: Option<Transform>,
}

#[derive(Debug, Clone)]
pub struct Rect {
    pub x: u64,
    pub y: u64,
    pub width: u64,
    pub height: u64,
    pub rx: Option<u64>,
    pub ry: Option<u64>,
    pub fill: Option<Paint>,
    pub stroke: Option<Paint>,
    pub stroke_width: Option<u64>,
    pub opacity: Option<u64>,
}

#[derive(Debug, Clone)]
pub struct Circle {
    pub cx: u64,
    pub cy: u64,
    pub r: u64,
    pub fill: Option<Paint>,
    pub stroke: Option<Paint>,
    pub stroke_width: Option<u64>,
}

#[derive(Debug, Clone)]
pub struct Ellipse {
    pub cx: u64,
    pub cy: u64,
    pub rx: u64,
    pub ry: u64,
    pub fill: Option<Paint>,
    pub stroke: Option<Paint>,
    pub stroke_width: Option<u64>,
}

#[derive(Debug, Clone)]
pub struct Line {
    pub x1: u64,
    pub y1: u64,
    pub x2: u64,
    pub y2: u64,
    pub stroke: Option<Paint>,
    pub stroke_width: Option<u64>,
}

/// A polyline; each point is a pair of bit patterns of `f64` values.
#[derive(Debug)]
pub struct Polyline {
    pub points: Vec<(u64, u64)>,
    pub fill: Option<Paint>,
    pub stroke: Option<Paint>,
    pub stroke_width: Option<u64>,
}

#[derive(Debug)]
pub struct Polygon {
    pub points: Vec<(u64, u64)>,
    pub fill: Option<Paint>,
    pub stroke: Option<Paint>,
    pub stroke_width: Option<u64>,
}

#[derive(Debug, Clone)]
pub struct TextElement {
    pub x: u64,
    pub y: u64,
    pub content: String,
    pub font_family: Option<String>,
    pub font_size: Option<u64>,
    pub font_weight: Option<u16>,
    pub fill: Option<Paint>,
    pub transform: Option<Transform>,
}

#[derive(Debug)]
pub struct Group {
    pub elements: Vec<VectorElement>,
    pub transform: Option<Transform>,
    pub opacity: Option<u64>,
}

#[derive(Debug, Clone)]
pub struct VectorImageRef {
    pub href: String,
    pub x: u64,
    pub y: u64,
    pub width: u64,
    pub height: u64,
}

#[derive(Debug, Clone)]
pub struct UseRef {
    pub href: String,
    pub x: Option<u64>,
    pub y: Option<u64>,
}

#[derive(Debug, Clone)]
pub enum Paint {
    NoPaint,
    Color(String),
    Rgb(u8, u8, u8),
    Rgba(u8, u8, u8, u8),
    Url(String),
}

#[derive(Debug)]
pub enum Transform {
    Matrix([u64; 6]),
    Translate(u64, u64),
    Scale(u64, u64),
    Rotate(u64),
    SkewX(u64),
    SkewY(u64),
}

impl Clone for Transform {
    fn clone(&self) -> (r: Self)
        ensures
            r == *self,
    {
        match self {
            Transform::Matrix(m) => Transform::Matrix(*m),
            Transform::Translate(x, y) => Transform::Translate(*x, *y),
            Transform::Scale(x, y) => Transform::Scale(*x, *y),
            Transform::Rotate(a) => Transform::Rotate(*a),
            Transform::SkewX(a) => Transform::SkewX(*a),
            Transform::SkewY(a) => Transform::SkewY(*a),
        }
    }
}

#[derive(Debug)]
pub enum Def {
    LinearGradient { id: String, stops: Vec<GradientStop>, x1: u64, y1: u64, x2: u64, y2: u64 },
    RadialGradient { id: String, stops: Vec<GradientStop>, cx: u64, cy: u64, r: u64 },
    ClipPath { id: String, elements: Vec<VectorElement> },
    Mask { id: String, elements: Vec<VectorElement> },
}

#[derive(Debug, Clone)]
pub struct GradientStop {
    pub offset: u64,
    pub color: String,
    pub opacity: Option<u64>,
}

#[derive(Debug, Clone)]
pub struct VectorMetadata {
    pub title: Option<String>,
    pub description: Option<String>,
    pub creator: Option<String>,
}

/// The bit pattern is that of a NaN: all exponent bits set and a nonzero fraction.
pub open spec fn f64_is_nan(bits: u64) -> bool {
    (bits & 0x7ff0_0000_0000_0000u64) == 0x7ff0_0000_0000_0000u64 && (bits & 0x000f_ffff_ffff_ffffu64) != 0
}

/// The `f64` with this bit pattern compares `<= 0.0`: it is not a NaN, and it is a
/// zero of either sign or has its sign bit set.
pub open spec fn f64_at_most_zero(bits: u64) -> bool {
    !f64_is_nan(bits) && ((bits & 0x7fff_ffff_ffff_ffffu64) == 0 || (bits >> 63u64) == 1)
}

/// Whether the `f64` with this bit pattern compares `<= 0.0`.
pub fn f64_bits_at_most_zero(bits: u64) -> (r: bool)
    ensures
        r == f64_at_most_zero(bits),
{
    let nan = (bits & 0x7ff0_0000_0000_0000u64) == 0x7ff0_0000_0000_0000u64 && (bits & 0x000f_ffff_ffff_ffffu64) != 0;
    !nan && ((bits & 0x7fff_ffff_ffff_ffffu64) == 0 || (bits >> 63u64) == 1)
}

/// The problems `validate` reports for vector graphics.
pub open spec fn vector_issues(v: VectorIR) -> Seq<(Seq<char>, Seq<char>, ValidationSeverity)> {
    if f64_at_most_zero(v.width) || f64_at_most_zero(v.height) {
        seq![("dimensions"@, "Width and height must be > 0"@, ValidationSeverity::Error)]
    } else {
        seq![]
    }
}

impl VectorIR {
    /// Empty vector graphics of the given size (bit patterns of `f64` values).
    pub fn new(width: u64, height: u64) -> (r: Self)
        ensures
            r.version == version_of(1, 0, 0),
            r.width == width,
            r.height == height,
            r.viewBox is None,
            r.elements@.len() == 0,
            r.defs@.len() == 0,
            r.metadata.title is None && r.metadata.description is None && r.metadata.creator is None,
    {
        VectorIR {
            version: api_version(),
            width,
            height,
            viewBox: None,
            elements: Vec::new(),
            defs: Vec::new(),
            metadata: VectorMetadata { title: None, description: None, creator: None },
        }
    }
}

impl IntermediateRepresentation for VectorIR {
    open spec fn usage_fits(&self) -> bool {
        self.elements@.len() * 512 + 4096 <= u64::MAX
    }

    fn version(&self) -> (r: semver::Version)
        ensures
            r == self.version,
    {
        self.version.clone()
    }

    fn ir_type(&self) -> (r: &'static str)
        ensures
            r@ == "Vector"@,
    {
        "Vector"
    }

    /// 512 bytes per top-level element, and 4 KiB.
    fn memory_usage(&self) -> (r: u64)
        ensures
            r == self.elements@.len() * 512 + 4096,
    {
        self.elements.len() as u64 * 512 + 4096
    }

    /// The problems found: see [`vector_issues`].
    fn validate(&self) -> (r: Vec<ValidationError>)
        ensures
            issues_view(r@) == vector_issues(*self),
    {
        let mut errors: Vec<ValidationError> = Vec::new();
        if f64_bits_at_most_zero(self.width) || f64_bits_at_most_zero(self.height) {
            errors.push(issue("dimensions", "Width and height must be > 0", ValidationSeverity::Error));
        }
        assert(issues_view(errors@) =~= vector_issues(*self));
        errors
    }

    /// Whether there are no elements.
    fn is_empty(&self) -> (r: bool)
        ensures
            r == (self.elements@.len() == 0),
    {
        self.elements.len() == 0
    }
}

} // verus!
