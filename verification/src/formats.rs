//! Output targets and subtitle modes.
use vstd::prelude::*;

verus! {

/// The file format a conversion produces.
#[derive(Clone, Copy, Debug, PartialEq, Eq, Hash, Structural)]
pub enum TargetFormat {
    Mp4,
    Mov,
    Mkv,
    Webm,
    Avi,
    Gif,
    Mp3,
    M4a,
    Wav,
    Flac,
    Ogg,
    Opus,
    Aac,
    Png,
    Jpeg,
    Webp,
    Avif,
    Bmp,
    Tiff,
    Srt,
    Vtt,
}

/// How an external subtitle file is attached to a video.
#[derive(Clone, Copy, Debug, PartialEq, Eq, Hash, Structural)]
pub enum SubtitleMode {
    /// Muxed as a selectable text track.
    Soft,
    /// Rendered into the video frames.
    BurnIn,
}

/// The file extension of each target, without the dot.
pub open spec fn spec_extension(t: TargetFormat) -> Seq<char> {
    match t {
        TargetFormat::Mp4 => "mp4"@,
        TargetFormat::Mov => "mov"@,
        TargetFormat::Mkv => "mkv"@,
        TargetFormat::Webm => "webm"@,
        TargetFormat::Avi => "avi"@,
        TargetFormat::Gif => "gif"@,
        TargetFormat::Mp3 => "mp3"@,
        TargetFormat::M4a => "m4a"@,
        TargetFormat::Wav => "wav"@,
        TargetFormat::Flac => "flac"@,
        TargetFormat::Ogg => "ogg"@,
        TargetFormat::Opus => "opus"@,
        TargetFormat::Aac => "aac"@,
        TargetFormat::Png => "png"@,
        TargetFormat::Jpeg => "jpg"@,
        TargetFormat::Webp => "webp"@,
        TargetFormat::Avif => "avif"@,
        TargetFormat::Bmp => "bmp"@,
        TargetFormat::Tiff => "tiff"@,
        TargetFormat::Srt => "srt"@,
        TargetFormat::Vtt => "vtt"@,
    }
}

impl TargetFormat {
    /// The extension as a static string.
    pub fn extension_str(self) -> (r: &'static str)
        ensures
            r@ == spec_extension(self),
    {
        match self {
            TargetFormat::Mp4 => "mp4",
            TargetFormat::Mov => "mov",
            TargetFormat::Mkv => "mkv",
            TargetFormat::Webm => "webm",
            TargetFormat::Avi => "avi",
            TargetFormat::Gif => "gif",
            TargetFormat::Mp3 => "mp3",
            TargetFormat::M4a => "m4a",
            TargetFormat::Wav => "wav",
            TargetFormat::Flac => "flac",
            TargetFormat::Ogg => "ogg",
            TargetFormat::Opus => "opus",
            TargetFormat::Aac => "aac",
            TargetFormat::Png => "png",
            TargetFormat::Jpeg => "jpg",
            TargetFormat::Webp => "webp",
            TargetFormat::Avif => "avif",
            TargetFormat::Bmp => "bmp",
            TargetFormat::Tiff => "tiff",
            TargetFormat::Srt => "srt",
            TargetFormat::Vtt => "vtt",
        }
    }

    /// The extension as an owned string.
    pub fn extension(self) -> (r: String)
        ensures
            r@ == spec_extension(self),
    {
        crate::text::owned(self.extension_str())
    }
}

} // verus!
