//! The video representation. Covers MP4, MKV, AVI, MOV, WebM, FLV. Video is mostly
//! handled by an external process; this representation holds the container's
//! metadata and track structure, not raw frames.
use vstd::prelude::*;
use crate::ir::{api_version, version_of, TimeSpan};
use crate::ir::traits::{IntermediateRepresentation, ValidationError, ValidationSeverity, issue, issues_view};

verus! {

/// A video container: its tracks, chapters and metadata.
#[derive(Debug, Clone)]
pub struct VideoIR {
    pub version: semver::Version,
    pub container: ContainerInfo,
    pub video_tracks: Vec<VideoTrack>,
    pub audio_tracks: Vec<AudioTrackInfo>,
    pub subtitle_tracks: Vec<SubtitleTrack>,
    pub chapters: Vec<VideoChapter>,
    pub metadata: VideoMetadata,
}

#[derive(Debug, Clone)]
pub struct ContainerInfo {
    pub format: String,
    pub duration: TimeSpan,
    pub bitrate: u64,
    pub file_size: u64,
}

/// A video track; the frame rate is the bit pattern of an `f64`.
#[derive(Debug, Clone)]
pub struct VideoTrack {
    pub index: u32,
    pub codec: String,
    pub width: u32,
    pub height: u32,
    pub fps: u64,
    pub bitrate: u64,
    pub pixel_format: String,
    pub color_space: Option<String>,
    pub hdr: bool,
    pub rotation: Option<i32>,
    pub frame_count: u64,
}

#[derive(Debug, Clone)]
pub struct AudioTrackInfo {
    pub index: u32,
    pub codec: String,
    pub sample_rate: u32,
    pub channels: u16,
    pub bitrate: u64,
    pub language: Option<String>,
    pub default: bool,
}

#[derive(Debug, Clone)]
pub struct SubtitleTrack {
    pub index: u32,
    pub codec: String,
    pub language: Option<String>,
    pub default: bool,
    pub forced: bool,
}

#[derive(Debug, Clone)]
pub struct VideoChapter {
    pub start: TimeSpan,
    pub end: TimeSpan,
    pub title: String,
}

#[derive(Debug, Clone)]
pub struct VideoMetadata {
    pub title: Option<String>,
    pub artist: Option<String>,
    pub album: Option<String>,
    pub date: Option<String>,
    pub comment: Option<String>,
    pub genre: Option<String>,
    pub encoder: Option<String>,
}

/// The average bitrate of a file: its bits over its whole seconds; zero for a
/// duration under one second.
pub open spec fn average_bitrate(file_size: u64, duration: TimeSpan) -> int {
    if duration.secs > 0 {
        (file_size * 8) / (duration.secs as int)
    } else {
        0
    }
}

/// The position of the first default audio track.
pub open spec fn first_default(ts: Seq<AudioTrackInfo>) -> Option<int>
    decreases ts.len(),
{
    if ts.len() == 0 {
        None
    } else if ts[0].default {
        Some(0)
    } else {
        match first_default(ts.drop_first()) {
            Some(k) => Some(k + 1),
            None => None,
        }
    }
}

pub proof fn lemma_first_default(ts: Seq<AudioTrackInfo>)
    ensures
        first_default(ts) matches Some(k) ==> 0 <= k < ts.len() && ts[k].default && forall|j: int|
            0 <= j < k ==> !(#[trigger] ts[j]).default,
        first_default(ts) is None ==> forall|j: int| 0 <= j < ts.len() ==> !(#[trigger] ts[j]).default,
    decreases ts.len(),
{
    if ts.len() > 0 {
        lemma_first_default(ts.drop_first());
        assert forall|j: int| 1 <= j < ts.len() implies ts[j] == ts.drop_first()[j - 1] by {}
    }
}

/// The problems `validate` reports for a video.
pub open spec fn video_issues(v: VideoIR) -> Seq<(Seq<char>, Seq<char>, ValidationSeverity)> {
    if v.video_tracks@.len() == 0 {
        seq![("video_tracks"@, "No video tracks found"@, ValidationSeverity::Warning)]
    } else {
        seq![]
    }
}

impl VideoIR {
    /// A video container of the given format, duration and file size, with its
    /// average bitrate and no tracks, chapters or metadata.
    pub fn new(format: &str, duration: TimeSpan, file_size: u64) -> (r: Self)
        requires
            duration.secs > 0 ==> file_size * 8 <= u64::MAX,
        ensures
            r.version == version_of(1, 0, 0),
            r.container.format@ == format@,
            r.container.duration == duration,
            r.container.bitrate == average_bitrate(file_size, duration),
            r.container.file_size == file_size,
            r.video_tracks@.len() == 0,
            r.audio_tracks@.len() == 0,
            r.subtitle_tracks@.len() == 0,
            r.chapters@.len() == 0,
            r.metadata.title is None && r.metadata.artist is None && r.metadata.album is None,
            r.metadata.date is None && r.metadata.comment is None && r.metadata.genre is None,
            r.metadata.encoder is None,
    {
        let bitrate = if duration.secs > 0 {
            (file_size * 8) / duration.secs
        } else {
            0
        };
        VideoIR {
            version: api_version(),
            container: ContainerInfo { format: String::from_str(format), duration, bitrate, file_size },
            video_tracks: Vec::new(),
            audio_tracks: Vec::new(),
            subtitle_tracks: Vec::new(),
            chapters: Vec::new(),
            metadata: VideoMetadata {
                title: None,
                artist: None,
                album: None,
                date: None,
                comment: None,
                genre: None,
                encoder: None,
            },
        }
    }

    /// The first video track.
    pub fn primary_video_track(&self) -> (r: Option<&VideoTrack>)
        ensures
            self.video_tracks@.len() == 0 ==> r is None,
            self.video_tracks@.len() > 0 ==> r == Some(&self.video_tracks@[0]),
    {
        if self.video_tracks.len() > 0 {
            Some(&self.video_tracks[0])
        } else {
            None
        }
    }

    /// The first default audio track, or else the first audio track.
    pub fn primary_audio_track(&self) -> (r: Option<&AudioTrackInfo>)
        ensures
            first_default(self.audio_tracks@) matches Some(k) ==> r == Some(&self.audio_tracks@[k]),
            first_default(self.audio_tracks@) is None && self.audio_tracks@.len() > 0 ==> r == Some(
                &self.audio_tracks@[0],
            ),
            self.audio_tracks@.len() == 0 ==> r is None,
    {
        let ghost ts = self.audio_tracks@;
        proof {
            lemma_first_default(ts);
        }
        let mut i: usize = 0;
        while i < self.audio_tracks.len()
            invariant
                i <= ts.len(),
                ts == self.audio_tracks@,
                forall|j: int| 0 <= j < i ==> !(#[trigger] ts[j]).default,
            decreases ts.len() - i,
        {
            if self.audio_tracks[i].default {
                proof {
                    lemma_first_default(ts);
                    match first_default(ts) {
                        Some(k) => {
                            if k < i {
                                assert(!ts[k].default);
                            }
                            if k > i {
                                assert(ts[i as int].default);
                            }
                        },
                        None => {
                            assert(ts[i as int].default);
                        },
                    }
                }
                return Some(&self.audio_tracks[i]);
            }
            i = i + 1;
        }
        proof {
            lemma_first_default(ts);
            if let Some(k) = first_default(ts) {
                assert(ts[k].default);
            }
        }
        if self.audio_tracks.len() > 0 {
            Some(&self.audio_tracks[0])
        } else {
            None
        }
    }
}

impl IntermediateRepresentation for VideoIR {
    open spec fn usage_fits(&self) -> bool {
        true
    }

    fn version(&self) -> (r: semver::Version)
        ensures
            r == self.version,
    {
        self.version.clone()
    }

    fn ir_type(&self) -> (r: &'static str)
        ensures
            r@ == "Video"@,
    {
        "Video"
    }

    /// A fixed 8 KiB: only metadata is held, no raw frames.
    fn memory_usage(&self) -> (r: u64)
        ensures
            r == 8192,
    {
        8192
    }

    /// The problems found: see [`video_issues`].
    fn validate(&self) -> (r: Vec<ValidationError>)
        ensures
            issues_view(r@) == video_issues(*self),
    {
        let mut errors: Vec<ValidationError> = Vec::new();
        if self.video_tracks.len() == 0 {
            errors.push(issue("video_tracks", "No video tracks found", ValidationSeverity::Warning));
        }
        assert(issues_view(errors@) =~= video_issues(*self));
        errors
    }

    /// Whether there are no video tracks.
    fn is_empty(&self) -> (r: bool)
        ensures
            r == (self.video_tracks@.len() == 0),
    {
        self.video_tracks.len() == 0
    }
}

} // verus!
