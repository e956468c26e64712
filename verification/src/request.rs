//! The immutable description of one render job, supplied by the caller when
//! a task starts and consumed once by the command builder.

use vstd::prelude::*;

verus! {

/// Everything the command builder needs for one render: paths, codec ids,
/// the trim window, the ordered audio-track selection, opaque rate-control
/// tokens passed through verbatim, and the overwrite flag.
///
/// Timestamps are whole milliseconds, so the duration handed to the
/// transcoder is the exact difference of the two trim points.
pub struct RenderRequest {
    pub input_path: String,
    pub output_path: String,
    pub video_codec: String,
    pub audio_codec: String,
    pub overwrite: bool,
    /// Selected audio stream indices, order-significant.
    pub audio_tracks: Vec<u32>,
    /// Opaque rate-control arguments, appended verbatim.
    pub rate_control: Vec<String>,
    pub trim_start_ms: u64,
    pub trim_end_ms: u64,
}

impl RenderRequest {
    /// A request is renderable only when the trim window is non-empty.
    pub open spec fn valid(self) -> bool {
        self.trim_start_ms < self.trim_end_ms
    }
}

} // verus!
