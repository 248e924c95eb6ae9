use vstd::prelude::*;

pub mod display_matrix;
pub mod error;
pub mod formats;
pub mod media;
pub mod metadata;
pub mod metadata_transfer;
pub mod naming;
pub mod paths;
pub mod plan;
pub mod preview;
pub mod preview_session;
pub mod probe;
pub mod progress;
pub mod raw;
pub mod subtitle;
pub mod target_size;
pub mod text;
pub mod track_options;
pub mod tracks;
pub mod video_options;
pub mod video_tracks;
pub mod webp;

verus! {
} // verus!
