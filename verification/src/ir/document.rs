//! The document representation. Covers PDF, DOCX, ODT, HTML, Markdown, RTF, EPUB
//! and plain text. Floating-point values are kept as their IEEE-754 bit patterns,
//! dates as timestamps, and custom JSON data as its text.
use vstd::prelude::*;
use std::collections::HashMap;
use crate::ir::{api_version, version_of};
use crate::ir::sums::{sum_of, all_nonneg, lemma_sum_step, lemma_sum_all, lemma_sum_nonneg};
use crate::ir::traits::{IntermediateRepresentation, ValidationError, ValidationSeverity, issue, issues_view};
use crate::queue::Timestamp;

verus! {

/// A document: metadata, styles, content blocks, annotations, embedded resources
/// and its outline.
#[derive(Debug)]
pub struct DocumentIR {
    pub version: semver::Version,
    pub metadata: DocumentMetadata,
    pub styles: StyleSheet,
    pub content: Vec<Block>,
    pub annotations: Vec<Annotation>,
    pub embedded_resources: Vec<EmbeddedResource>,
    pub outline: Option<TocNode>,
}

#[derive(Debug, Clone)]
pub struct DocumentMetadata {
    pub title: Option<String>,
    pub author: Option<String>,
    pub created: Option<Timestamp>,
    pub modified: Option<Timestamp>,
    pub language: Option<String>,
    pub page_size: Option<PageSize>,
    pub custom: HashMap<String, MetadataValue>,
}

/// A custom metadata value; a number is the bit pattern of an `f64`.
#[derive(Debug, Clone)]
pub enum MetadataValue {
    String(String),
    Number(u64),
    Boolean(bool),
    Date(Timestamp),
}

/// Page size and margins in points, as bit patterns of `f64` values.
#[derive(Debug, Clone)]
pub struct PageSize {
    pub width_pt: u64,
    pub height_pt: u64,
    pub margins: Margins,
}

#[derive(Debug, Clone)]
pub struct Margins {
    pub top_pt: u64,
    pub right_pt: u64,
    pub bottom_pt: u64,
    pub left_pt: u64,
}

#[derive(Debug, Clone)]
pub struct StyleSheet {
    pub paragraph_styles: Vec<ParagraphStyle>,
    pub character_styles: Vec<CharacterStyle>,
    pub table_styles: Vec<TableStyle>,
}

#[derive(Debug, Clone)]
pub struct ParagraphStyle {
    pub id: String,
    pub name: String,
    pub parent_id: Option<String>,
    pub font: Option<FontSpec>,
    pub alignment: Option<Alignment>,
    pub spacing: Option<Spacing>,
    pub borders: Option<Borders>,
    pub shading: Option<Shading>,
    pub numbering: Option<NumberingRef>,
}

#[derive(Debug, Clone)]
pub struct CharacterStyle {
    pub id: String,
    pub name: String,
    pub parent_id: Option<String>,
    pub font: Option<FontSpec>,
}

#[derive(Debug, Clone)]
pub struct TableStyle {
    pub id: String,
    pub name: String,
    pub borders: Option<Borders>,
    pub cell_shading: Option<Shading>,
}

/// A font; the size is the bit pattern of an `f64`.
#[derive(Debug, Clone)]
pub struct FontSpec {
    pub family: String,
    pub size_pt: u64,
    pub weight: u16,
    pub italic: bool,
    pub underline: bool,
    pub strikethrough: bool,
    pub color: Option<Color>,
}

#[derive(Debug, Clone)]
pub enum Color {
    Rgb(u8, u8, u8),
    Rgba(u8, u8, u8, u8),
    Named(String),
    Theme(String),
}

#[derive(Debug, Clone, Copy, PartialEq, Eq, Structural)]
pub enum Alignment {
    Left,
    Center,
    Right,
    Justify,
}

/// Spacing in points, as bit patterns of `f64` values.
#[derive(Debug, Clone)]
pub struct Spacing {
    pub before_pt: u64,
    pub after_pt: u64,
    pub line_spacing: u64,
}

#[derive(Debug, Clone)]
pub struct Borders {
    pub top: Option<BorderSide>,
    pub right: Option<BorderSide>,
    pub bottom: Option<BorderSide>,
    pub left: Option<BorderSide>,
}

/// A border; the width is the bit pattern of an `f64`.
#[derive(Debug, Clone)]
pub struct BorderSide {
    pub width_pt: u64,
    pub color: Option<Color>,
    pub style: BorderLineStyle,
}

#[derive(Debug, Clone, Copy, PartialEq, Eq, Structural)]
pub enum BorderLineStyle {
    NoBorder,
    Solid,
    Dashed,
    Dotted,
    Double,
    Groove,
    Ridge,
    Inset,
    Outset,
}

#[derive(Debug, Clone)]
pub struct Shading {
    pub fill: Option<Color>,
    pub pattern: Option<String>,
}

#[derive(Debug, Clone)]
pub struct NumberingRef {
    pub list_id: String,
    pub level: u8,
}

/// A content block. Custom data is kept as JSON text.
#[derive(Debug)]
pub enum Block {
    Paragraph(Paragraph),
    Heading(Heading),
    Table(Table),
    List(List),
    CodeBlock(CodeBlock),
    BlockQuote(Vec<Block>),
    Image(ImageRef),
    HorizontalRule,
    PageBreak,
    SectionBreak,
    TableOfContents(TocField),
    Custom { type_id: String, data: String },
}

#[derive(Debug)]
pub struct Paragraph {
    pub style_id: Option<String>,
    pub runs: Vec<InlineRun>,
}

#[derive(Debug)]
pub struct Heading {
    pub level: u8,
    pub style_id: Option<String>,
    pub runs: Vec<InlineRun>,
    pub id: Option<String>,
}

#[derive(Debug)]
pub enum InlineRun {
    Text(TextRun),
    Link { runs: Vec<InlineRun>, href: String },
    Image(ImageRef),
    FootnoteRef(String),
    Bookmark(String),
    LineBreak,
    SoftHyphen,
    Tab,
}

#[derive(Debug, Clone)]
pub struct TextRun {
    pub text: String,
    pub style_id: Option<String>,
    pub bold: Option<bool>,
    pub italic: Option<bool>,
    pub underline: Option<bool>,
    pub strikethrough: Option<bool>,
    pub color: Option<Color>,
    pub background: Option<Color>,
    pub font: Option<FontSpec>,
    pub superscript: bool,
    pub subscript: bool,
}

impl TextRun {
    /// A run of the given text with no formatting.
    pub fn plain(text: String) -> (r: Self)
        ensures
            r.text == text,
            r.style_id is None,
            r.bold is None && r.italic is None && r.underline is None && r.strikethrough is None,
            r.color is None && r.background is None && r.font is None,
            !r.superscript && !r.subscript,
    {
        TextRun {
            text,
            style_id: None,
            bold: None,
            italic: None,
            underline: None,
            strikethrough: None,
            color: None,
            background: None,
            font: None,
            superscript: false,
            subscript: false,
        }
    }
}

/// A table; column widths and row heights are bit patterns of `f64` values.
#[derive(Debug)]
pub struct Table {
    pub style_id: Option<String>,
    pub rows: Vec<TableRow>,
    pub column_widths: Option<Vec<u64>>,
}

#[derive(Debug)]
pub struct TableRow {
    pub cells: Vec<TableCell>,
    pub height: Option<u64>,
    pub header_row: bool,
}

#[derive(Debug)]
pub struct TableCell {
    pub content: Vec<Block>,
    pub vertical_alignment: Option<VerticalAlignment>,
    pub shading: Option<Shading>,
    pub row_span: u32,
    pub col_span: u32,
}

#[derive(Debug, Clone, Copy, PartialEq, Eq, Structural)]
pub enum VerticalAlignment {
    Top,
    Center,
    Bottom,
}

#[derive(Debug)]
pub struct List {
    pub list_type: ListType,
    pub items: Vec<ListItem>,
}

#[derive(Debug, Clone, Copy, PartialEq, Eq, Structural)]
pub enum ListType {
    Ordered,
    Unordered,
}

#[derive(Debug)]
pub struct ListItem {
    pub content: Vec<Block>,
    pub level: u8,
}

#[derive(Debug, Clone)]
pub struct CodeBlock {
    pub language: Option<String>,
    pub code: String,
}

/// A reference to an image; width and height are bit patterns of `f64` values.
#[derive(Debug, Clone)]
pub struct ImageRef {
    pub resource_id: String,
    pub alt_text: Option<String>,
    pub width: Option<u64>,
    pub height: Option<u64>,
}

#[derive(Debug, Clone)]
pub struct TocField {
    pub max_level: u8,
}

#[derive(Debug, Clone)]
pub struct Annotation {
    pub id: String,
    pub annotation_type: AnnotationType,
    pub content: String,
    pub target: AnnotationTarget,
}

#[derive(Debug, Clone, Copy, PartialEq, Eq, Structural)]
pub enum AnnotationType {
    Footnote,
    Endnote,
    Comment,
}

#[derive(Debug, Clone, Copy, PartialEq, Eq, Structural)]
pub enum AnnotationTarget {
    Block(usize),
    Inline { block: usize, run: usize },
}

#[derive(Debug, Clone)]
pub struct EmbeddedResource {
    pub id: String,
    pub mime: String,
    pub data: ResourceData,
    pub alt_text: Option<String>,
    pub dimensions: Option<(u32, u32)>,
}

#[derive(Debug, Clone)]
pub enum ResourceData {
    Inline(Vec<u8>),
    Reference(String),
}

#[derive(Debug)]
pub struct TocNode {
    pub title: String,
    pub level: u8,
    pub target_id: String,
    pub children: Vec<TocNode>,
}

/// The text of inline runs: text runs as written, line breaks as newlines, tabs as
/// tabs, links by their runs, nothing for the rest.
pub open spec fn runs_text(runs: Seq<InlineRun>) -> Seq<char>
    decreases runs,
{
    if runs.len() == 0 {
        Seq::empty()
    } else {
        runs_text(runs.drop_last()) + run_text(runs.last())
    }
}

pub open spec fn run_text(r: InlineRun) -> Seq<char>
    decreases r,
{
    match r {
        InlineRun::Text(t) => t.text@,
        InlineRun::Link { runs, .. } => runs_text(runs@),
        InlineRun::LineBreak => "\n"@,
        InlineRun::Tab => "\t"@,
        _ => Seq::empty(),
    }
}

/// The text of a block: paragraphs and headings by their runs; a table row by
/// row, each cell's blocks followed by a tab and each row by a newline; a list by
/// its items' blocks; code as written; a quote by its blocks; nothing for the rest.
pub open spec fn block_text(b: Block) -> Seq<char>
    decreases b,
{
    match b {
        Block::Paragraph(p) => runs_text(p.runs@),
        Block::Heading(h) => runs_text(h.runs@),
        Block::Table(t) => rows_text(t.rows@),
        Block::List(l) => items_text(l.items@),
        Block::CodeBlock(c) => c.code@,
        Block::BlockQuote(bs) => blocks_text(bs@),
        _ => Seq::empty(),
    }
}

pub open spec fn blocks_text(bs: Seq<Block>) -> Seq<char>
    decreases bs,
{
    if bs.len() == 0 {
        Seq::empty()
    } else {
        blocks_text(bs.drop_last()) + block_text(bs.last())
    }
}

pub open spec fn rows_text(rs: Seq<TableRow>) -> Seq<char>
    decreases rs,
{
    if rs.len() == 0 {
        Seq::empty()
    } else {
        rows_text(rs.drop_last()) + cells_text(rs.last().cells@) + "\n"@
    }
}

pub open spec fn cells_text(cs: Seq<TableCell>) -> Seq<char>
    decreases cs,
{
    if cs.len() == 0 {
        Seq::empty()
    } else {
        cells_text(cs.drop_last()) + blocks_text(cs.last().content@) + "\t"@
    }
}

pub open spec fn items_text(is: Seq<ListItem>) -> Seq<char>
    decreases is,
{
    if is.len() == 0 {
        Seq::empty()
    } else {
        items_text(is.drop_last()) + blocks_text(is.last().content@)
    }
}

/// The plain text of a document: each top-level block's text followed by a newline.
pub open spec fn document_text(bs: Seq<Block>) -> Seq<char>
    decreases bs.len(),
{
    if bs.len() == 0 {
        Seq::empty()
    } else {
        document_text(bs.drop_last()) + block_text(bs.last()) + "\n"@
    }
}

/// Appends the text of `runs` to `text`.
fn extract_runs_text(runs: &Vec<InlineRun>, text: &mut String)
    ensures
        final(text)@ == old(text)@ + runs_text(runs@),
    decreases runs@,
{
    let ghost start = text@;
    let mut i: usize = 0;
    proof {
        assert(runs@.take(0) =~= Seq::<InlineRun>::empty());
        assert(start + Seq::<char>::empty() =~= start);
    }
    while i < runs.len()
        invariant
            i <= runs@.len(),
            text@ == start + runs_text(runs@.take(i as int)),
        decreases runs@.len() - i,
    {
        let ghost before = text@;
        match &runs[i] {
            InlineRun::Text(t) => text.append(t.text.as_str()),
            InlineRun::Link { runs: inner, .. } => {
                assert(decreases_to!(runs@ => runs@[i as int]));
                extract_runs_text(inner, text);
            },
            InlineRun::LineBreak => text.append("\n"),
            InlineRun::Tab => text.append("\t"),
            _ => {
                assert(text@ =~= before + run_text(runs@[i as int]));
            },
        }
        proof {
            assert(text@ == before + run_text(runs@[i as int]));
            let t = runs@.take(i + 1);
            assert(t.drop_last() =~= runs@.take(i as int));
            assert(t.last() == runs@[i as int]);
            assert(text@ =~= start + runs_text(t));
        }
        i = i + 1;
    }
    proof {
        assert(runs@.take(runs@.len() as int) =~= runs@);
    }
}

/// Appends the text of `block` to `text`.
fn extract_block_text(block: &Block, text: &mut String)
    ensures
        final(text)@ == old(text)@ + block_text(*block),
    decreases block,
{
    match block {
        Block::Paragraph(p) => extract_runs_text(&p.runs, text),
        Block::Heading(h) => extract_runs_text(&h.runs, text),
        Block::Table(t) => extract_rows_text(&t.rows, text),
        Block::List(l) => extract_items_text(&l.items, text),
        Block::CodeBlock(c) => text.append(c.code.as_str()),
        Block::BlockQuote(blocks) => extract_blocks_text(blocks, text),
        _ => {
            assert(text@ =~= old(text)@ + block_text(*block));
        },
    }
}

/// Appends the text of each of `blocks` to `text`.
fn extract_blocks_text(blocks: &Vec<Block>, text: &mut String)
    ensures
        final(text)@ == old(text)@ + blocks_text(blocks@),
    decreases blocks@,
{
    let ghost start = text@;
    let mut i: usize = 0;
    proof {
        assert(blocks@.take(0) =~= Seq::<Block>::empty());
        assert(start + Seq::<char>::empty() =~= start);
    }
    while i < blocks.len()
        invariant
            i <= blocks@.len(),
            text@ == start + blocks_text(blocks@.take(i as int)),
        decreases blocks@.len() - i,
    {
        assert(decreases_to!(blocks@ => blocks@[i as int]));
        extract_block_text(&blocks[i], text);
        proof {
            let t = blocks@.take(i + 1);
            assert(t.drop_last() =~= blocks@.take(i as int));
            assert(text@ =~= start + blocks_text(t));
        }
        i = i + 1;
    }
    proof {
        assert(blocks@.take(blocks@.len() as int) =~= blocks@);
    }
}

/// Appends the text of each table row: its cells, then a newline.
fn extract_rows_text(rows: &Vec<TableRow>, text: &mut String)
    ensures
        final(text)@ == old(text)@ + rows_text(rows@),
    decreases rows@,
{
    let ghost start = text@;
    let mut i: usize = 0;
    proof {
        assert(rows@.take(0) =~= Seq::<TableRow>::empty());
        assert(start + Seq::<char>::empty() =~= start);
    }
    while i < rows.len()
        invariant
            i <= rows@.len(),
            text@ == start + rows_text(rows@.take(i as int)),
        decreases rows@.len() - i,
    {
        assert(decreases_to!(rows@ => rows@[i as int].cells@));
        extract_cells_text(&rows[i].cells, text);
        text.append("\n");
        proof {
            let t = rows@.take(i + 1);
            assert(t.drop_last() =~= rows@.take(i as int));
            assert(text@ =~= start + rows_text(t));
        }
        i = i + 1;
    }
    proof {
        assert(rows@.take(rows@.len() as int) =~= rows@);
    }
}

/// Appends the text of each table cell: its blocks, then a tab.
fn extract_cells_text(cells: &Vec<TableCell>, text: &mut String)
    ensures
        final(text)@ == old(text)@ + cells_text(cells@),
    decreases cells@,
{
    let ghost start = text@;
    let mut i: usize = 0;
    proof {
        assert(cells@.take(0) =~= Seq::<TableCell>::empty());
        assert(start + Seq::<char>::empty() =~= start);
    }
    while i < cells.len()
        invariant
            i <= cells@.len(),
            text@ == start + cells_text(cells@.take(i as int)),
        decreases cells@.len() - i,
    {
        assert(decreases_to!(cells@ => cells@[i as int].content@));
        extract_blocks_text(&cells[i].content, text);
        text.append("\t");
        proof {
            let t = cells@.take(i + 1);
            assert(t.drop_last() =~= cells@.take(i as int));
            assert(text@ =~= start + cells_text(t));
        }
        i = i + 1;
    }
    proof {
        assert(cells@.take(cells@.len() as int) =~= cells@);
    }
}

/// Appends the text of each list item's blocks.
fn extract_items_text(items: &Vec<ListItem>, text: &mut String)
    ensures
        final(text)@ == old(text)@ + items_text(items@),
    decreases items@,
{
    let ghost start = text@;
    let mut i: usize = 0;
    proof {
        assert(items@.take(0) =~= Seq::<ListItem>::empty());
        assert(start + Seq::<char>::empty() =~= start);
    }
    while i < items.len()
        invariant
            i <= items@.len(),
            text@ == start + items_text(items@.take(i as int)),
        decreases items@.len() - i,
    {
        assert(decreases_to!(items@ => items@[i as int].content@));
        extract_blocks_text(&items[i].content, text);
        proof {
            let t = items@.take(i + 1);
            assert(t.drop_last() =~= items@.take(i as int));
            assert(text@ =~= start + items_text(t));
        }
        i = i + 1;
    }
    proof {
        assert(items@.take(items@.len() as int) =~= items@);
    }
}

/// The number of bytes of a text in UTF-8, as `str::len` counts them.
pub open spec fn text_bytes(s: Seq<char>) -> int {
    (vstd::utf8::encode_utf8(s).len() as usize) as int
}

/// The size estimate of inline runs: a text run's bytes and 128; a link's runs
/// and 256; 128 for any other run.
pub open spec fn runs_size(runs: Seq<InlineRun>) -> int
    decreases runs,
{
    if runs.len() == 0 {
        0
    } else {
        runs_size(runs.drop_last()) + run_size(runs.last())
    }
}

pub open spec fn run_size(r: InlineRun) -> int
    decreases r,
{
    match r {
        InlineRun::Text(t) => text_bytes(t.text@) + 128,
        InlineRun::Link { runs, .. } => runs_size(runs@) + 256,
        _ => 128,
    }
}

/// The size estimate of a block: paragraphs and headings by their runs; tables and
/// lists by the blocks they hold; code by its bytes; quotes by their blocks; 256 for
/// any other block.
pub open spec fn block_size(b: Block) -> int
    decreases b,
{
    match b {
        Block::Paragraph(p) => runs_size(p.runs@),
        Block::Heading(h) => runs_size(h.runs@),
        Block::Table(t) => rows_size(t.rows@),
        Block::List(l) => items_size(l.items@),
        Block::CodeBlock(c) => text_bytes(c.code@),
        Block::BlockQuote(bs) => blocks_size(bs@),
        _ => 256,
    }
}

pub open spec fn blocks_size(bs: Seq<Block>) -> int
    decreases bs,
{
    if bs.len() == 0 {
        0
    } else {
        blocks_size(bs.drop_last()) + block_size(bs.last())
    }
}

pub open spec fn rows_size(rs: Seq<TableRow>) -> int
    decreases rs,
{
    if rs.len() == 0 {
        0
    } else {
        rows_size(rs.drop_last()) + cells_size(rs.last().cells@)
    }
}

pub open spec fn cells_size(cs: Seq<TableCell>) -> int
    decreases cs,
{
    if cs.len() == 0 {
        0
    } else {
        cells_size(cs.drop_last()) + blocks_size(cs.last().content@)
    }
}

pub open spec fn items_size(is: Seq<ListItem>) -> int
    decreases is,
{
    if is.len() == 0 {
        0
    } else {
        items_size(is.drop_last()) + blocks_size(is.last().content@)
    }
}

/// Bytes held inline by embedded resources.
pub open spec fn resource_sizes(rs: Seq<EmbeddedResource>) -> Seq<int> {
    rs.map_values(
        |r: EmbeddedResource|
            match r.data {
                ResourceData::Inline(d) => d@.len() as int,
                ResourceData::Reference(_) => 0,
            },
    )
}

/// The memory estimate of a document: its blocks, its inline resources, and 4 KiB
/// for metadata.
pub open spec fn document_memory(d: DocumentIR) -> int {
    blocks_size(d.content@) + sum_of(resource_sizes(d.embedded_resources@)) + 4096
}

proof fn lemma_run_size_nonneg(r: InlineRun)
    ensures
        run_size(r) >= 0,
    decreases r,
{
    if let InlineRun::Link { runs, .. } = r {
        lemma_runs_size_nonneg(runs@);
    }
}

proof fn lemma_runs_size_nonneg(s: Seq<InlineRun>)
    ensures
        runs_size(s) >= 0,
    decreases s,
{
    if s.len() > 0 {
        lemma_runs_size_nonneg(s.drop_last());
        lemma_run_size_nonneg(s.last());
    }
}

proof fn lemma_block_size_nonneg(b: Block)
    ensures
        block_size(b) >= 0,
    decreases b,
{
    match b {
        Block::Paragraph(p) => lemma_runs_size_nonneg(p.runs@),
        Block::Heading(h) => lemma_runs_size_nonneg(h.runs@),
        Block::Table(t) => lemma_rows_size_nonneg(t.rows@),
        Block::List(l) => lemma_items_size_nonneg(l.items@),
        Block::BlockQuote(bs) => lemma_blocks_size_nonneg(bs@),
        _ => {},
    }
}

proof fn lemma_blocks_size_nonneg(s: Seq<Block>)
    ensures
        blocks_size(s) >= 0,
    decreases s,
{
    if s.len() > 0 {
        lemma_blocks_size_nonneg(s.drop_last());
        lemma_block_size_nonneg(s.last());
    }
}

proof fn lemma_rows_size_nonneg(s: Seq<TableRow>)
    ensures
        rows_size(s) >= 0,
    decreases s,
{
    if s.len() > 0 {
        lemma_rows_size_nonneg(s.drop_last());
        lemma_cells_size_nonneg(s.last().cells@);
    }
}

proof fn lemma_cells_size_nonneg(s: Seq<TableCell>)
    ensures
        cells_size(s) >= 0,
    decreases s,
{
    if s.len() > 0 {
        lemma_cells_size_nonneg(s.drop_last());
        lemma_blocks_size_nonneg(s.last().content@);
    }
}

proof fn lemma_items_size_nonneg(s: Seq<ListItem>)
    ensures
        items_size(s) >= 0,
    decreases s,
{
    if s.len() > 0 {
        lemma_items_size_nonneg(s.drop_last());
        lemma_blocks_size_nonneg(s.last().content@);
    }
}

proof fn lemma_runs_prefix(s: Seq<InlineRun>, i: int)
    requires
        0 <= i <= s.len(),
    ensures
        runs_size(s.take(i)) <= runs_size(s),
    decreases s.len() - i,
{
    if i < s.len() {
        lemma_runs_prefix(s, i + 1);
        assert(s.take(i + 1).drop_last() =~= s.take(i));
        lemma_run_size_nonneg(s[i]);
    } else {
        assert(s.take(i) =~= s);
    }
}

proof fn lemma_blocks_prefix(s: Seq<Block>, i: int)
    requires
        0 <= i <= s.len(),
    ensures
        blocks_size(s.take(i)) <= blocks_size(s),
    decreases s.len() - i,
{
    if i < s.len() {
        lemma_blocks_prefix(s, i + 1);
        assert(s.take(i + 1).drop_last() =~= s.take(i));
        lemma_block_size_nonneg(s[i]);
    } else {
        assert(s.take(i) =~= s);
    }
}

proof fn lemma_rows_prefix(s: Seq<TableRow>, i: int)
    requires
        0 <= i <= s.len(),
    ensures
        rows_size(s.take(i)) <= rows_size(s),
    decreases s.len() - i,
{
    if i < s.len() {
        lemma_rows_prefix(s, i + 1);
        assert(s.take(i + 1).drop_last() =~= s.take(i));
        lemma_cells_size_nonneg(s[i].cells@);
    } else {
        assert(s.take(i) =~= s);
    }
}

proof fn lemma_cells_prefix(s: Seq<TableCell>, i: int)
    requires
        0 <= i <= s.len(),
    ensures
        cells_size(s.take(i)) <= cells_size(s),
    decreases s.len() - i,
{
    if i < s.len() {
        lemma_cells_prefix(s, i + 1);
        assert(s.take(i + 1).drop_last() =~= s.take(i));
        lemma_blocks_size_nonneg(s[i].content@);
    } else {
        assert(s.take(i) =~= s);
    }
}

proof fn lemma_items_prefix(s: Seq<ListItem>, i: int)
    requires
        0 <= i <= s.len(),
    ensures
        items_size(s.take(i)) <= items_size(s),
    decreases s.len() - i,
{
    if i < s.len() {
        lemma_items_prefix(s, i + 1);
        assert(s.take(i + 1).drop_last() =~= s.take(i));
        lemma_blocks_size_nonneg(s[i].content@);
    } else {
        assert(s.take(i) =~= s);
    }
}

/// The size estimate of an inline run.
fn estimate_run_size(run: &InlineRun) -> (r: u64)
    requires
        run_size(*run) <= u64::MAX,
    ensures
        r == run_size(*run),
    decreases run,
{
    match run {
        InlineRun::Text(t) => t.text.as_str().len() as u64 + 128,
        InlineRun::Link { runs, .. } => estimate_runs_size(runs) + 256,
        _ => 128,
    }
}

/// The size estimate of inline runs.
fn estimate_runs_size(runs: &Vec<InlineRun>) -> (r: u64)
    requires
        runs_size(runs@) <= u64::MAX,
    ensures
        r == runs_size(runs@),
    decreases runs@,
{
    let mut acc: u64 = 0;
    let mut i: usize = 0;
    proof {
        assert(runs@.take(0) =~= Seq::<InlineRun>::empty());
    }
    while i < runs.len()
        invariant
            i <= runs@.len(),
            runs_size(runs@) <= u64::MAX,
            acc == runs_size(runs@.take(i as int)),
        decreases runs@.len() - i,
    {
        proof {
            let t = runs@.take(i + 1);
            assert(t.drop_last() =~= runs@.take(i as int));
            lemma_runs_prefix(runs@, i + 1);
            lemma_runs_size_nonneg(runs@.take(i as int));
            lemma_run_size_nonneg(runs@[i as int]);
        }
        assert(decreases_to!(runs@ => runs@[i as int]));
        acc = acc + estimate_run_size(&runs[i]);
        i = i + 1;
    }
    proof {
        assert(runs@.take(runs@.len() as int) =~= runs@);
    }
    acc
}

/// The size estimate of a block.
fn estimate_block_size(block: &Block) -> (r: u64)
    requires
        block_size(*block) <= u64::MAX,
    ensures
        r == block_size(*block),
    decreases block,
{
    match block {
        Block::Paragraph(p) => estimate_runs_size(&p.runs),
        Block::Heading(h) => estimate_runs_size(&h.runs),
        Block::Table(t) => estimate_rows_size(&t.rows),
        Block::List(l) => estimate_items_size(&l.items),
        Block::CodeBlock(c) => c.code.as_str().len() as u64,
        Block::BlockQuote(blocks) => estimate_blocks_size(blocks),
        _ => 256,
    }
}

/// The size estimate of blocks.
fn estimate_blocks_size(blocks: &Vec<Block>) -> (r: u64)
    requires
        blocks_size(blocks@) <= u64::MAX,
    ensures
        r == blocks_size(blocks@),
    decreases blocks@,
{
    let mut acc: u64 = 0;
    let mut i: usize = 0;
    proof {
        assert(blocks@.take(0) =~= Seq::<Block>::empty());
    }
    while i < blocks.len()
        invariant
            i <= blocks@.len(),
            blocks_size(blocks@) <= u64::MAX,
            acc == blocks_size(blocks@.take(i as int)),
        decreases blocks@.len() - i,
    {
        proof {
            let t = blocks@.take(i + 1);
            assert(t.drop_last() =~= blocks@.take(i as int));
            lemma_blocks_prefix(blocks@, i + 1);
            lemma_blocks_size_nonneg(blocks@.take(i as int));
            lemma_block_size_nonneg(blocks@[i as int]);
        }
        assert(decreases_to!(blocks@ => blocks@[i as int]));
        acc = acc + estimate_block_size(&blocks[i]);
        i = i + 1;
    }
    proof {
        assert(blocks@.take(blocks@.len() as int) =~= blocks@);
    }
    acc
}

/// The size estimate of table rows.
fn estimate_rows_size(rows: &Vec<TableRow>) -> (r: u64)
    requires
        rows_size(rows@) <= u64::MAX,
    ensures
        r == rows_size(rows@),
    decreases rows@,
{
    let mut acc: u64 = 0;
    let mut i: usize = 0;
    proof {
        assert(rows@.take(0) =~= Seq::<TableRow>::empty());
    }
    while i < rows.len()
        invariant
            i <= rows@.len(),
            rows_size(rows@) <= u64::MAX,
            acc == rows_size(rows@.take(i as int)),
        decreases rows@.len() - i,
    {
        proof {
            let t = rows@.take(i + 1);
            assert(t.drop_last() =~= rows@.take(i as int));
            lemma_rows_prefix(rows@, i + 1);
            lemma_rows_size_nonneg(rows@.take(i as int));
            lemma_cells_size_nonneg(rows@[i as int].cells@);
        }
        assert(decreases_to!(rows@ => rows@[i as int].cells@));
        acc = acc + estimate_cells_size(&rows[i].cells);
        i = i + 1;
    }
    proof {
        assert(rows@.take(rows@.len() as int) =~= rows@);
    }
    acc
}

/// The size estimate of table cells.
fn estimate_cells_size(cells: &Vec<TableCell>) -> (r: u64)
    requires
        cells_size(cells@) <= u64::MAX,
    ensures
        r == cells_size(cells@),
    decreases cells@,
{
    let mut acc: u64 = 0;
    let mut i: usize = 0;
    proof {
        assert(cells@.take(0) =~= Seq::<TableCell>::empty());
    }
    while i < cells.len()
        invariant
            i <= cells@.len(),
            cells_size(cells@) <= u64::MAX,
            acc == cells_size(cells@.take(i as int)),
        decreases cells@.len() - i,
    {
        proof {
            let t = cells@.take(i + 1);
            assert(t.drop_last() =~= cells@.take(i as int));
            lemma_cells_prefix(cells@, i + 1);
            lemma_cells_size_nonneg(cells@.take(i as int));
            lemma_blocks_size_nonneg(cells@[i as int].content@);
        }
        assert(decreases_to!(cells@ => cells@[i as int].content@));
        acc = acc + estimate_blocks_size(&cells[i].content);
        i = i + 1;
    }
    proof {
        assert(cells@.take(cells@.len() as int) =~= cells@);
    }
    acc
}

/// The size estimate of list items.
fn estimate_items_size(items: &Vec<ListItem>) -> (r: u64)
    requires
        items_size(items@) <= u64::MAX,
    ensures
        r == items_size(items@),
    decreases items@,
{
    let mut acc: u64 = 0;
    let mut i: usize = 0;
    proof {
        assert(items@.take(0) =~= Seq::<ListItem>::empty());
    }
    while i < items.len()
        invariant
            i <= items@.len(),
            items_size(items@) <= u64::MAX,
            acc == items_size(items@.take(i as int)),
        decreases items@.len() - i,
    {
        proof {
            let t = items@.take(i + 1);
            assert(t.drop_last() =~= items@.take(i as int));
            lemma_items_prefix(items@, i + 1);
            lemma_items_size_nonneg(items@.take(i as int));
            lemma_blocks_size_nonneg(items@[i as int].content@);
        }
        assert(decreases_to!(items@ => items@[i as int].content@));
        acc = acc + estimate_blocks_size(&items[i].content);
        i = i + 1;
    }
    proof {
        assert(items@.take(items@.len() as int) =~= items@);
    }
    acc
}

/// The problems `validate` reports for a document.
pub open spec fn document_issues(d: DocumentIR) -> Seq<(Seq<char>, Seq<char>, ValidationSeverity)> {
    if d.content@.len() == 0 {
        seq![("content"@, "Document has no content blocks"@, ValidationSeverity::Warning)]
    } else {
        seq![]
    }
}

impl DocumentIR {
    /// An empty document: no metadata, styles, content, annotations, resources or outline.
    pub fn new() -> (r: Self)
        ensures
            r.version == version_of(1, 0, 0),
            r.metadata.title is None && r.metadata.author is None,
            r.metadata.created is None && r.metadata.modified is None,
            r.metadata.language is None && r.metadata.page_size is None,
            r.metadata.custom@.len() == 0,
            r.styles.paragraph_styles@.len() == 0,
            r.styles.character_styles@.len() == 0,
            r.styles.table_styles@.len() == 0,
            r.content@.len() == 0,
            r.annotations@.len() == 0,
            r.embedded_resources@.len() == 0,
            r.outline is None,
    {
        DocumentIR {
            version: api_version(),
            metadata: DocumentMetadata {
                title: None,
                author: None,
                created: None,
                modified: None,
                language: None,
                page_size: None,
                custom: HashMap::new(),
            },
            styles: StyleSheet {
                paragraph_styles: Vec::new(),
                character_styles: Vec::new(),
                table_styles: Vec::new(),
            },
            content: Vec::new(),
            annotations: Vec::new(),
            embedded_resources: Vec::new(),
            outline: None,
        }
    }

    /// The plain text of the document: each block's text followed by a newline.
    pub fn plain_text(&self) -> (r: String)
        ensures
            r@ == document_text(self.content@),
    {
        let mut text = String::new();
        let mut i: usize = 0;
        proof {
            assert(self.content@.take(0) =~= Seq::<Block>::empty());
        }
        while i < self.content.len()
            invariant
                i <= self.content@.len(),
                text@ == document_text(self.content@.take(i as int)),
            decreases self.content@.len() - i,
        {
            extract_block_text(&self.content[i], &mut text);
            text.append("\n");
            proof {
                let t = self.content@.take(i + 1);
                assert(t.drop_last() =~= self.content@.take(i as int));
                assert(text@ =~= document_text(t));
            }
            i = i + 1;
        }
        proof {
            assert(self.content@.take(self.content@.len() as int) =~= self.content@);
        }
        text
    }
}

impl Default for DocumentIR {
    fn default() -> (r: Self)
        ensures
            r.content@.len() == 0,
            r.annotations@.len() == 0,
            r.embedded_resources@.len() == 0,
            r.outline is None,
    {
        Self::new()
    }
}

impl IntermediateRepresentation for DocumentIR {
    open spec fn usage_fits(&self) -> bool {
        document_memory(*self) <= u64::MAX
    }

    fn version(&self) -> (r: semver::Version)
        ensures
            r == self.version,
    {
        self.version.clone()
    }

    fn ir_type(&self) -> (r: &'static str)
        ensures
            r@ == "Document"@,
    {
        "Document"
    }

    /// The memory estimate: see [`document_memory`].
    fn memory_usage(&self) -> (r: u64)
        ensures
            r == document_memory(*self),
    {
        proof {
            lemma_blocks_size_nonneg(self.content@);
            assert(all_nonneg(resource_sizes(self.embedded_resources@)));
            lemma_sum_nonneg(resource_sizes(self.embedded_resources@));
        }
        let blocks = estimate_blocks_size(&self.content);
        let ghost s = resource_sizes(self.embedded_resources@);
        let mut res: u64 = 0;
        let mut i: usize = 0;
        proof {
            assert(s.take(0) =~= Seq::<int>::empty());
        }
        while i < self.embedded_resources.len()
            invariant
                i <= self.embedded_resources@.len(),
                s == resource_sizes(self.embedded_resources@),
                all_nonneg(s),
                sum_of(s) <= u64::MAX,
                res == sum_of(s.take(i as int)),
            decreases self.embedded_resources@.len() - i,
        {
            proof {
                lemma_sum_step(s, i as int);
            }
            let n = match &self.embedded_resources[i].data {
                ResourceData::Inline(d) => d.len() as u64,
                ResourceData::Reference(_) => 0,
            };
            res = res + n;
            i = i + 1;
        }
        proof {
            lemma_sum_all(s);
        }
        blocks + res + 4096
    }

    /// The problems found: see [`document_issues`].
    fn validate(&self) -> (r: Vec<ValidationError>)
        ensures
            issues_view(r@) == document_issues(*self),
    {
        let mut errors: Vec<ValidationError> = Vec::new();
        if self.content.len() == 0 {
            errors.push(issue("content", "Document has no content blocks", ValidationSeverity::Warning));
        }
        assert(issues_view(errors@) =~= document_issues(*self));
        errors
    }

    /// Whether the document has no content blocks.
    fn is_empty(&self) -> (r: bool)
        ensures
            r == (self.content@.len() == 0),
    {
        self.content.len() == 0
    }
}

} // verus!
