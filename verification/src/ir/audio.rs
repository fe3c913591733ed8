//! The audio representation. Covers WAV, FLAC, MP3, AAC, OGG/Vorbis, Opus, WMA,
//! AIFF, ALAC, M4A. Floating-point values are kept as their IEEE-754 bit patterns.
use vstd::prelude::*;
use std::collections::HashMap;
use crate::ir::{api_version, version_of, TimeSpan};
use crate::ir::sums::{sum_of, all_nonneg, lemma_sum_step, lemma_sum_all, lemma_sum_nonneg};
use crate::ir::traits::{IntermediateRepresentation, ValidationError, ValidationSeverity, issue, issues_view};

verus! {

/// Audio: sample layout, samples, metadata, chapters and tags.
#[derive(Debug, Clone)]
pub struct AudioIR {
    pub version: semver::Version,
    pub format: AudioFormat,
    pub samples: SampleData,
    pub metadata: AudioMetadata,
    pub chapters: Vec<Chapter>,
    pub tags: AudioTags,
}

#[derive(Debug, Clone)]
pub struct AudioFormat {
    pub sample_rate: u32,
    pub channels: ChannelLayout,
    pub bit_depth: AudioBitDepth,
    pub sample_format: SampleFormat,
}

#[derive(Debug, Clone)]
pub enum ChannelLayout {
    Mono,
    Stereo,
    Surround5_1,
    Surround7_1,
    Custom(Vec<ChannelDef>),
}

/// The number of channels of a layout; a custom layout's count is taken modulo 2^16.
pub open spec fn channel_count_of(c: ChannelLayout) -> u16 {
    match c {
        ChannelLayout::Mono => 1,
        ChannelLayout::Stereo => 2,
        ChannelLayout::Surround5_1 => 6,
        ChannelLayout::Surround7_1 => 8,
        ChannelLayout::Custom(ch) => ch@.len() as u16,
    }
}

impl ChannelLayout {
    pub fn channel_count(&self) -> (r: u16)
        ensures
            r == channel_count_of(*self),
    {
        match self {
            ChannelLayout::Mono => 1,
            ChannelLayout::Stereo => 2,
            ChannelLayout::Surround5_1 => 6,
            ChannelLayout::Surround7_1 => 8,
            ChannelLayout::Custom(channels) => channels.len() as u16,
        }
    }
}

/// A channel of a custom layout; its position is the bit patterns of three `f64` values.
#[derive(Debug)]
pub struct ChannelDef {
    pub id: String,
    pub position: (u64, u64, u64),
}

impl Clone for ChannelDef {
    fn clone(&self) -> (r: Self)
        ensures
            r.id == self.id,
            r.position == self.position,
    {
        ChannelDef { id: self.id.clone(), position: self.position }
    }
}

#[derive(Debug, Clone, Copy, PartialEq, Eq, Structural)]
pub enum AudioBitDepth {
    U8,
    I16,
    I24,
    I32,
    F32,
    F64,
}

/// Bits per sample of each audio bit depth.
pub open spec fn audio_bits_of(d: AudioBitDepth) -> u8 {
    match d {
        AudioBitDepth::U8 => 8,
        AudioBitDepth::I16 => 16,
        AudioBitDepth::I24 => 24,
        AudioBitDepth::I32 => 32,
        AudioBitDepth::F32 => 32,
        AudioBitDepth::F64 => 64,
    }
}

impl AudioBitDepth {
    pub fn bits_per_sample(&self) -> (r: u8)
        ensures
            r == audio_bits_of(*self),
    {
        match self {
            AudioBitDepth::U8 => 8,
            AudioBitDepth::I16 => 16,
            AudioBitDepth::I24 => 24,
            AudioBitDepth::I32 => 32,
            AudioBitDepth::F32 => 32,
            AudioBitDepth::F64 => 64,
        }
    }
}

#[derive(Debug, Clone, Copy, PartialEq, Eq, Structural)]
pub enum SampleFormat {
    Integer,
    Float,
}

/// Samples, as bit patterns of `f32` values normalized to -1.0..1.0.
#[derive(Debug, Clone)]
pub enum SampleData {
    /// Interleaved samples
    Interleaved(Vec<u32>),
    /// Per-channel storage
    Planar(Vec<Vec<u32>>),
}

#[derive(Debug, Clone)]
pub struct AudioMetadata {
    pub duration: TimeSpan,
    pub original_format: String,
    pub original_bitrate: Option<u32>,
    pub encoder: Option<String>,
}

#[derive(Debug, Clone)]
pub struct AudioTags {
    pub title: Option<String>,
    pub artist: Option<String>,
    pub album: Option<String>,
    pub album_artist: Option<String>,
    pub track_number: Option<u32>,
    pub disc_number: Option<u32>,
    pub year: Option<u32>,
    pub genre: Option<String>,
    pub comment: Option<String>,
    pub cover_art: Option<Vec<u8>>,
    pub replay_gain: Option<ReplayGain>,
    pub custom: HashMap<String, String>,
}

/// Replay gain figures as bit patterns of `f64` values.
#[derive(Debug, Clone)]
pub struct ReplayGain {
    pub track_gain_db: u64,
    pub track_peak: u64,
    pub album_gain_db: Option<u64>,
    pub album_peak: Option<u64>,
}

#[derive(Debug, Clone)]
pub struct Chapter {
    pub start: TimeSpan,
    pub end: TimeSpan,
    pub title: String,
}

/// Bytes each channel of planar samples takes (four per sample).
pub open spec fn plane_sizes(p: Seq<Vec<u32>>) -> Seq<int> {
    p.map_values(|c: Vec<u32>| 4 * (c@.len() as int))
}

/// Bytes the samples take: four per sample.
pub open spec fn sample_bytes(s: SampleData) -> int {
    match s {
        SampleData::Interleaved(v) => 4 * (v@.len() as int),
        SampleData::Planar(p) => sum_of(plane_sizes(p@)),
    }
}

/// The memory estimate of audio: its samples, its cover art, and 1 KiB for metadata.
pub open spec fn audio_memory(ir: AudioIR) -> int {
    sample_bytes(ir.samples) + (match ir.tags.cover_art {
        Some(c) => c@.len() as int,
        None => 0,
    }) + 1024
}

/// Samples in all: the interleaved count, or the length of the first channel.
pub open spec fn total_samples_of(s: SampleData) -> int {
    match s {
        SampleData::Interleaved(v) => v@.len() as int,
        SampleData::Planar(p) => if p@.len() > 0 {
            p@[0]@.len() as int
        } else {
            0
        },
    }
}

/// The problems `validate` reports for audio, in order.
pub open spec fn audio_issues(ir: AudioIR) -> Seq<(Seq<char>, Seq<char>, ValidationSeverity)> {
    let a: Seq<(Seq<char>, Seq<char>, ValidationSeverity)> = if ir.format.sample_rate == 0 {
        seq![("format.sample_rate"@, "Sample rate must be > 0"@, ValidationSeverity::Error)]
    } else {
        seq![]
    };
    if ir.format.sample_rate > 768000 {
        a.push(("format.sample_rate"@, "Sample rate exceeds reasonable maximum (768kHz)"@, ValidationSeverity::Warning))
    } else {
        a
    }
}

/// No samples: none interleaved, or no channel holding any.
pub open spec fn samples_empty(s: SampleData) -> bool {
    match s {
        SampleData::Interleaved(v) => v@.len() == 0,
        SampleData::Planar(p) => p@.len() == 0 || forall|i: int| 0 <= i < p@.len() ==> (#[trigger] p@[i])@.len() == 0,
    }
}

proof fn lemma_planes_nonneg(p: Seq<Vec<u32>>)
    ensures
        all_nonneg(plane_sizes(p)),
        sum_of(plane_sizes(p)) >= 0,
{
    assert(all_nonneg(plane_sizes(p)));
    lemma_sum_nonneg(plane_sizes(p));
}

impl AudioIR {
    /// Audio with the given rate, layout and depth, integer samples, no samples yet,
    /// zero duration, empty metadata, no chapters and no tags.
    pub fn new(sample_rate: u32, channels: ChannelLayout, bit_depth: AudioBitDepth) -> (r: Self)
        ensures
            r.version == version_of(1, 0, 0),
            r.format.sample_rate == sample_rate,
            r.format.channels == channels,
            r.format.bit_depth == bit_depth,
            r.format.sample_format == SampleFormat::Integer,
            r.samples matches SampleData::Interleaved(v) && v@.len() == 0,
            r.metadata.duration == (TimeSpan { secs: 0, nanos: 0 }),
            r.metadata.original_format@.len() == 0,
            r.metadata.original_bitrate is None,
            r.metadata.encoder is None,
            r.chapters@.len() == 0,
            r.tags.title is None && r.tags.artist is None && r.tags.album is None && r.tags.album_artist is None,
            r.tags.track_number is None && r.tags.disc_number is None && r.tags.year is None,
            r.tags.genre is None && r.tags.comment is None && r.tags.cover_art is None && r.tags.replay_gain is None,
            r.tags.custom@.len() == 0,
    {
        AudioIR {
            version: api_version(),
            format: AudioFormat { sample_rate, channels, bit_depth, sample_format: SampleFormat::Integer },
            samples: SampleData::Interleaved(Vec::new()),
            metadata: AudioMetadata {
                duration: TimeSpan::zero(),
                original_format: String::new(),
                original_bitrate: None,
                encoder: None,
            },
            chapters: Vec::new(),
            tags: AudioTags {
                title: None,
                artist: None,
                album: None,
                album_artist: None,
                track_number: None,
                disc_number: None,
                year: None,
                genre: None,
                comment: None,
                cover_art: None,
                replay_gain: None,
                custom: HashMap::new(),
            },
        }
    }

    /// Samples in all: the interleaved count, or the length of the first channel.
    pub fn total_samples(&self) -> (r: u64)
        ensures
            r == total_samples_of(self.samples),
    {
        match &self.samples {
            SampleData::Interleaved(s) => s.len() as u64,
            SampleData::Planar(p) => if p.len() > 0 {
                p[0].len() as u64
            } else {
                0
            },
        }
    }

    /// Samples per channel: the interleaved count divided by the channel count, or
    /// the length of the first channel.
    pub fn sample_count_per_channel(&self) -> (r: u64)
        requires
            self.samples is Interleaved ==> channel_count_of(self.format.channels) != 0,
        ensures
            self.samples matches SampleData::Interleaved(v) ==> r == (v@.len() as int) / (channel_count_of(
                self.format.channels,
            ) as int),
            self.samples is Planar ==> r == total_samples_of(self.samples),
    {
        let ch = self.format.channels.channel_count() as u64;
        match &self.samples {
            SampleData::Interleaved(s) => s.len() as u64 / ch,
            SampleData::Planar(p) => if p.len() > 0 {
                p[0].len() as u64
            } else {
                0
            },
        }
    }
}

impl IntermediateRepresentation for AudioIR {
    open spec fn usage_fits(&self) -> bool {
        audio_memory(*self) <= u64::MAX
    }

    fn version(&self) -> (r: semver::Version)
        ensures
            r == self.version,
    {
        self.version.clone()
    }

    fn ir_type(&self) -> (r: &'static str)
        ensures
            r@ == "Audio"@,
    {
        "Audio"
    }

    /// The memory estimate: see [`audio_memory`].
    fn memory_usage(&self) -> (r: u64)
        ensures
            r == audio_memory(*self),
    {
        let samples = match &self.samples {
            SampleData::Interleaved(s) => s.len() as u64 * 4,
            SampleData::Planar(p) => {
                let ghost s = plane_sizes(p@);
                proof {
                    lemma_planes_nonneg(p@);
                    assert(s.take(0) =~= Seq::<int>::empty());
                }
                let mut acc: u64 = 0;
                let mut i: usize = 0;
                while i < p.len()
                    invariant
                        i <= p@.len(),
                        s == plane_sizes(p@),
                        all_nonneg(s),
                        sum_of(s) <= u64::MAX,
                        acc == sum_of(s.take(i as int)),
                    decreases p@.len() - i,
                {
                    proof {
                        lemma_sum_step(s, i as int);
                    }
                    acc = acc + p[i].len() as u64 * 4;
                    i = i + 1;
                }
                proof {
                    lemma_sum_all(s);
                }
                acc
            },
        };
        let cover = match &self.tags.cover_art {
            Some(c) => c.len() as u64,
            None => 0,
        };
        samples + cover + 1024
    }

    /// The problems found: see [`audio_issues`].
    fn validate(&self) -> (r: Vec<ValidationError>)
        ensures
            issues_view(r@) == audio_issues(*self),
    {
        let mut errors: Vec<ValidationError> = Vec::new();
        if self.format.sample_rate == 0 {
            errors.push(issue("format.sample_rate", "Sample rate must be > 0", ValidationSeverity::Error));
        }
        if self.format.sample_rate > 768000 {
            errors.push(
                issue("format.sample_rate", "Sample rate exceeds reasonable maximum (768kHz)", ValidationSeverity::Warning),
            );
        }
        assert(issues_view(errors@) =~= audio_issues(*self));
        errors
    }

    /// Whether the audio holds no samples.
    fn is_empty(&self) -> (r: bool)
        ensures
            r == samples_empty(self.samples),
    {
        match &self.samples {
            SampleData::Interleaved(s) => s.len() == 0,
            SampleData::Planar(p) => {
                if p.len() == 0 {
                    return true;
                }
                let mut i: usize = 0;
                while i < p.len()
                    invariant
                        i <= p@.len(),
                        self.samples matches SampleData::Planar(q) && q@ == p@,
                        forall|j: int| 0 <= j < i ==> (#[trigger] p@[j])@.len() == 0,
                    decreases p@.len() - i,
                {
                    if p[i].len() != 0 {
                        assert(p@[i as int]@.len() != 0);
                        return false;
                    }
                    i = i + 1;
                }
                true
            },
        }
    }
}

} // verus!
