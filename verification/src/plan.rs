//! The ffmpeg argument plan that conversion steps extend.
use vstd::prelude::*;

verus! {

/// Output arguments and video filters for one ffmpeg run. Input and output
/// paths are passed separately, so a plan carries none.
#[derive(Debug, Clone, PartialEq, Eq)]
pub struct Plan {
    /// Output-side arguments, in order.
    pub args: Vec<String>,
    /// Video filters, applied in order.
    pub video_filters: Vec<String>,
    /// Whether the plan re-encodes rather than stream-copies.
    pub reencoded: bool,
    /// Output file extension, without the dot.
    pub ext: String,
}

} // verus!
