use ufc::ir::api_version;
use ufc::ir::archive::{ArchiveEntry, ArchiveIR, EntryData, EntryType};
use ufc::ir::audio::{AudioBitDepth, AudioIR, ChannelLayout, SampleData};
use ufc::ir::document::{
    Block, CodeBlock, DocumentIR, Heading, InlineRun, List, ListItem, ListType, Paragraph, Table, TableCell,
    TableRow, TextRun,
};
use ufc::ir::image::{Animation, BitDepth, ColorSpace, ImageIR, PixelData, Tile};
use ufc::ir::mesh::{Mesh, Mesh3DIR};
use ufc::ir::table::{ColumnDef, DataType, DataValue, TableIR, TableRow as DataRow};
use ufc::ir::traits::{IntermediateRepresentation, ValidationSeverity};
use ufc::ir::vector::{f64_bits_at_most_zero, VectorIR};
use ufc::ir::video::{AudioTrackInfo, VideoIR};
use ufc::ir::TimeSpan;

fn para(text: &str) -> Block {
    Block::Paragraph(Paragraph { style_id: None, runs: vec![InlineRun::Text(TextRun::plain(text.to_string()))] })
}

fn audio_track(index: u32, default: bool) -> AudioTrackInfo {
    AudioTrackInfo {
        index,
        codec: "aac".to_string(),
        sample_rate: 48000,
        channels: 2,
        bitrate: 128000,
        language: None,
        default,
    }
}

#[test]
fn image_sizes_and_channels() {
    let img = ImageIR::new(10, 3, ColorSpace::Rgb, BitDepth::U8);
    assert_eq!(img.channels(), 3);
    assert_eq!(img.pixel_count(), 30);
    assert_eq!(img.expected_data_size(), 90);
    let bits = ImageIR::new(3, 3, ColorSpace::Gray, BitDepth::U1);
    assert_eq!(bits.expected_data_size(), 2);
    assert_eq!(BitDepth::F16.bits_per_sample(), 16);
    assert!(img.is_empty());
    assert_eq!(img.ir_type(), "Image");
    assert_eq!(img.version(), api_version());
}

#[test]
fn image_memory_counts_every_pixel_store() {
    let mut img = ImageIR::new(2, 2, ColorSpace::Rgba, BitDepth::U8);
    img.pixels = PixelData::Tiled {
        tile_width: 1,
        tile_height: 1,
        tiles: vec![Tile { x: 0, y: 0, data: vec![0; 10] }, Tile { x: 1, y: 0, data: vec![0; 5] }],
    };
    img.animation = Some(Animation { frames: vec![], loop_count: None, default_delay_ms: 100 });
    img.icc_profile = Some(vec![1, 2, 3]);
    assert_eq!(img.memory_usage(), 15 + 3 + 1024);
    img.pixels = PixelData::Raw16(vec![0; 4]);
    assert_eq!(img.memory_usage(), 8 + 3 + 1024);
    assert!(!img.is_empty());
}

#[test]
fn image_validation_reports_in_order() {
    let mut img = ImageIR::new(0, 70000, ColorSpace::Rgb, BitDepth::U8);
    img.animation = Some(Animation { frames: vec![], loop_count: None, default_delay_ms: 0 });
    let errors = img.validate();
    let fields: Vec<&str> = errors.iter().map(|e| e.field.as_str()).collect();
    assert_eq!(fields, vec!["dimensions.width", "dimensions", "animation.frames"]);
    assert_eq!(errors[1].severity, ValidationSeverity::Warning);
    assert_eq!(errors[0].message, "Width must be > 0");
    assert!(ImageIR::new(1, 1, ColorSpace::Gray, BitDepth::U8).validate().is_empty());
}

#[test]
fn audio_counts_and_memory() {
    let mut audio = AudioIR::new(44100, ChannelLayout::Stereo, AudioBitDepth::I16);
    audio.samples = SampleData::Interleaved(vec![0; 10]);
    assert_eq!(audio.total_samples(), 10);
    assert_eq!(audio.sample_count_per_channel(), 5);
    assert_eq!(audio.memory_usage(), 40 + 1024);
    audio.samples = SampleData::Planar(vec![vec![0; 3], vec![0; 3]]);
    assert_eq!(audio.total_samples(), 3);
    assert_eq!(audio.memory_usage(), 24 + 1024);
    assert!(!audio.is_empty());
    audio.samples = SampleData::Planar(vec![vec![], vec![]]);
    assert!(audio.is_empty());
    assert_eq!(ChannelLayout::Surround7_1.channel_count(), 8);
    assert_eq!(AudioBitDepth::I24.bits_per_sample(), 24);
}

#[test]
fn audio_validation_checks_sample_rate() {
    let silent = AudioIR::new(0, ChannelLayout::Mono, AudioBitDepth::U8);
    assert_eq!(silent.validate()[0].field, "format.sample_rate");
    let fast = AudioIR::new(800000, ChannelLayout::Mono, AudioBitDepth::U8);
    assert_eq!(fast.validate()[0].severity, ValidationSeverity::Warning);
    assert!(AudioIR::new(48000, ChannelLayout::Mono, AudioBitDepth::U8).validate().is_empty());
}

#[test]
fn document_plain_text_walks_every_block() {
    let mut doc = DocumentIR::new();
    doc.content.push(Block::Heading(Heading {
        level: 1,
        style_id: None,
        runs: vec![
            InlineRun::Text(TextRun::plain("Title".to_string())),
            InlineRun::Tab,
            InlineRun::Link { runs: vec![InlineRun::Text(TextRun::plain("link".to_string()))], href: "x".to_string() },
        ],
        id: None,
    }));
    doc.content.push(Block::Table(Table {
        style_id: None,
        rows: vec![TableRow {
            cells: vec![
                TableCell { content: vec![para("a")], vertical_alignment: None, shading: None, row_span: 1, col_span: 1 },
                TableCell { content: vec![para("b")], vertical_alignment: None, shading: None, row_span: 1, col_span: 1 },
            ],
            height: None,
            header_row: false,
        }],
        column_widths: None,
    }));
    doc.content.push(Block::List(List {
        list_type: ListType::Unordered,
        items: vec![ListItem { content: vec![para("x"), para("y")], level: 0 }],
    }));
    doc.content.push(Block::CodeBlock(CodeBlock { language: None, code: "fn main()".to_string() }));
    doc.content.push(Block::BlockQuote(vec![para("q")]));
    doc.content.push(Block::PageBreak);
    assert_eq!(doc.plain_text(), "Title\tlink\na\tb\t\n\nxy\nfn main()\nq\n\n");
}

#[test]
fn document_memory_estimate() {
    let mut doc = DocumentIR::default();
    assert_eq!(doc.memory_usage(), 4096);
    assert_eq!(doc.validate().len(), 1);
    assert!(doc.is_empty());
    doc.content.push(para("héllo"));
    doc.content.push(Block::HorizontalRule);
    assert_eq!(doc.memory_usage(), (6 + 128) + 256 + 4096);
    assert!(doc.validate().is_empty());
}

#[test]
fn archive_totals_and_counts() {
    let mut archive = ArchiveIR::new("zip");
    let file = ArchiveEntry {
        path: "a.txt".to_string(),
        entry_type: EntryType::File,
        size: 100,
        compressed_size: Some(40),
        permissions: None,
        modified: None,
        created: None,
        data: EntryData::Inline(vec![0; 7]),
        checksum: None,
    };
    let dir = ArchiveEntry {
        path: "d/".to_string(),
        entry_type: EntryType::Directory,
        size: 0,
        compressed_size: None,
        permissions: None,
        modified: None,
        created: None,
        data: EntryData::Empty,
        checksum: None,
    };
    assert_eq!(archive.validate().len(), 1);
    archive.add_entry(file);
    archive.add_entry(dir);
    assert_eq!(archive.metadata.total_size, 100);
    assert_eq!(archive.metadata.total_compressed_size, 40);
    assert_eq!(archive.metadata.entry_count, 2);
    assert_eq!(archive.file_count(), 1);
    assert_eq!(archive.directory_count(), 1);
    assert_eq!(archive.memory_usage(), 7 + 2 * 512 + 1024);
    assert!(archive.validate().is_empty());
}

#[test]
fn mesh_validation_names_empty_meshes() {
    let mut m = Mesh3DIR::new("obj");
    assert_eq!(m.validate()[0].field, "meshes");
    m.meshes.push(Mesh {
        name: "a".to_string(),
        vertices: vec![],
        faces: vec![],
        normals: vec![],
        tex_coords: vec![],
        material_index: None,
    });
    let errors = m.validate();
    assert_eq!(errors.len(), 1);
    assert_eq!(errors[0].field, "meshes[0].vertices");
    assert_eq!(errors[0].severity, ValidationSeverity::Error);
    assert_eq!(m.total_vertices(), 0);
    assert_eq!(m.memory_usage(), 4096);
}

#[test]
fn table_validation_reports_wrong_widths() {
    let mut t = TableIR::default();
    assert_eq!(t.validate()[0].message, "No columns defined");
    t.schema.columns.push(ColumnDef {
        index: 0,
        name: "n".to_string(),
        data_type: DataType::String,
        nullable: false,
        description: None,
    });
    t.rows.push(DataRow { values: vec![DataValue::String("abc".to_string())] });
    t.rows.push(DataRow { values: vec![DataValue::Null, DataValue::Json("[1,2]".to_string())] });
    let errors = t.validate();
    assert_eq!(errors.len(), 1);
    assert_eq!(errors[0].field, "rows[1].values");
    assert_eq!(errors[0].message, "Expected 1 values, got 2");
    assert_eq!(t.memory_usage(), (3 + 32) + (32 + 5 + 32) + 256 + 1024);
    assert_eq!(t.column_count(), 1);
    assert_eq!(t.row_count(), 2);
}

#[test]
fn vector_validation_compares_sizes_with_zero() {
    let ok = VectorIR::new(100.0f64.to_bits(), 50.0f64.to_bits());
    assert!(ok.validate().is_empty());
    assert_eq!(ok.memory_usage(), 4096);
    let zero = VectorIR::new((-0.0f64).to_bits(), 50.0f64.to_bits());
    assert_eq!(zero.validate().len(), 1);
    let negative = VectorIR::new(100.0f64.to_bits(), (-1.5f64).to_bits());
    assert_eq!(negative.validate()[0].field, "dimensions");
    assert!(!f64_bits_at_most_zero(f64::NAN.to_bits()));
    assert!(f64_bits_at_most_zero(f64::NEG_INFINITY.to_bits()));
    assert!(!f64_bits_at_most_zero(f64::MIN_POSITIVE.to_bits()));
}

#[test]
fn video_bitrate_and_primary_tracks() {
    let mut v = VideoIR::new("mp4", TimeSpan { secs: 10, nanos: 0 }, 1000);
    assert_eq!(v.container.bitrate, 800);
    assert!(v.primary_video_track().is_none());
    assert!(v.primary_audio_track().is_none());
    v.audio_tracks.push(audio_track(0, false));
    v.audio_tracks.push(audio_track(1, true));
    assert_eq!(v.primary_audio_track().unwrap().index, 1);
    assert_eq!(v.validate().len(), 1);
    assert_eq!(v.memory_usage(), 8192);
    let short = VideoIR::new("mp4", TimeSpan { secs: 0, nanos: 500 }, 1000);
    assert_eq!(short.container.bitrate, 0);
}

#[test]
fn data_values_as_text() {
    assert_eq!(DataValue::Null.to_string_lossy(""), "");
    assert_eq!(DataValue::String("abc".to_string()).to_string_lossy(""), "abc");
    assert_eq!(DataValue::Integer(-42).to_string_lossy(""), "-42");
    assert_eq!(DataValue::Integer(i64::MIN).to_string_lossy(""), i64::MIN.to_string());
    assert_eq!(DataValue::Integer(7).to_string_lossy(""), "7");
    let f = 2.5f64;
    assert_eq!(DataValue::Float(f.to_bits()).to_string_lossy(&f.to_string()), "2.5");
    assert_eq!(DataValue::Boolean(true).to_string_lossy(""), "true");
    assert_eq!(DataValue::Boolean(false).to_string_lossy(""), "false");
    assert_eq!(DataValue::Date("2024-01-02".to_string()).to_string_lossy(""), "2024-01-02");
    assert_eq!(DataValue::Binary(vec![1, 2, 3]).to_string_lossy(""), "<3 bytes>");
    assert_eq!(DataValue::Json("{\"a\":1}".to_string()).to_string_lossy(""), "{\"a\":1}");
}

#[test]
fn api_version_is_one_zero_zero() {
    assert_eq!(api_version(), semver::Version::new(1, 0, 0));
    assert_eq!(api_version().to_string(), "1.0.0");
}
