//! Probe facts about a media source: its kind, its streams and their
//! timing and colour facts.
use vstd::prelude::*;

verus! {

/// What a source file primarily is.
#[derive(Debug, Clone, Copy, PartialEq, Eq, Hash, Structural)]
pub enum SourceKind {
    Video,
    Audio,
    Image,
    Subtitle,
}

/// A rational stream fact (frame rate or time base) as probed: an exact
/// reduced fraction, or text that did not parse as one.
#[derive(Debug, Clone, Copy, PartialEq, Eq, Hash, Structural)]
pub enum VideoRationalFact {
    Exact { numerator: u32, denominator: u32 },
    Malformed,
}

/// Processing facts about one source stream.
#[derive(Debug, Clone, PartialEq, Eq)]
pub struct VideoStreamInfo {
    pub index: u32,
    pub codec_type: String,
    pub codec_name: Option<String>,
    pub pixel_format: Option<String>,
    pub color_transfer: Option<String>,
    pub color_primaries: Option<String>,
    pub color_space: Option<String>,
    pub color_range: Option<String>,
    pub field_order: Option<String>,
    pub sample_aspect_ratio: Option<String>,
    pub average_frame_rate: Option<VideoRationalFact>,
    pub base_frame_rate: Option<VideoRationalFact>,
    pub time_base: Option<VideoRationalFact>,
    pub rotation_degrees: Option<i32>,
    pub rotation_ambiguous: bool,
    pub attached_pic: bool,
    pub start_time_ms: Option<i64>,
    pub duration_ms: Option<u64>,
}

/// The complete stream inventory of a video source.
#[derive(Debug, Clone, PartialEq, Eq)]
pub struct VideoProbeDetails {
    pub streams: Vec<VideoStreamInfo>,
}

/// Processing facts about one source audio stream.
#[derive(Debug, Clone, PartialEq, Eq)]
pub struct AudioStreamInfo {
    pub index: u32,
    pub codec_name: Option<String>,
    pub sample_rate: Option<u32>,
    pub channels: Option<u32>,
}

/// The complete audio stream inventory of a source, and whether it holds
/// any stream that is not audio.
#[derive(Debug, Clone, PartialEq, Eq)]
pub struct AudioProbeDetails {
    pub streams: Vec<AudioStreamInfo>,
    pub has_non_audio_streams: bool,
}

/// What a probe established about a source.
#[derive(Debug, Clone, PartialEq, Eq)]
pub struct ProbeResult {
    pub video_details: Option<VideoProbeDetails>,
    pub duration_ms: u64,
    pub width: Option<u32>,
    pub height: Option<u32>,
    pub video_codec: Option<String>,
    pub audio_codec: Option<String>,
    pub file_size: u64,
    pub container: Option<String>,
    pub has_video: bool,
    pub has_audio: bool,
    pub source_kind: SourceKind,
    pub color_space: Option<String>,
    pub image_format: Option<String>,
    pub has_subtitles: bool,
    pub subtitle_codecs: Vec<String>,
    pub audio_codecs: Vec<String>,
    pub image_has_alpha: Option<bool>,
    /// The processing facts of every audio stream, when the probe established them.
    pub audio_details: Option<AudioProbeDetails>,
    /// The bounded identity of every stream, when the probe established it.
    pub track_inventory: Option<crate::tracks::TrackInventory>,
}

/// The character view of an optional owned string.
pub open spec fn opt_string(o: Option<String>) -> Option<Seq<char>> {
    match o {
        Some(s) => Some(s@),
        None => None,
    }
}

} // verus!
