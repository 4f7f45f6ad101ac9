//! The in-memory model of a decoded replay: per-participant display names
//! and per-participant frame sequences, plus the pipeline configuration.

use vstd::prelude::*;

verus! {

/// One simulation tick for one participant: the bitmask of the buttons
/// held on that frame. A frame's number is its position in the sequence.
#[derive(Clone, Copy, Debug, PartialEq, Eq, Structural)]
pub struct Frame {
    pub buttons_mask: u32,
}

/// A decoded recording, immutable while the pipeline runs.
///
/// Both vectors are indexed by participant port: `names[p]` is the raw
/// byte buffer of port `p`'s display name, and `frames[p]` holds port
/// `p`'s full frame sequence, or `None` if the port was unused.
pub struct Recording {
    pub names: Vec<Vec<u8>>,
    pub frames: Vec<Option<Vec<Frame>>>,
}

impl Recording {
    /// The two port-indexed columns describe the same set of ports.
    pub open spec fn wf(self) -> bool {
        self.names@.len() == self.frames@.len()
    }
}

/// The pipeline's configuration: which participant to select, which
/// button edge to look for, how long a clip to mark, and the annotation
/// text to store for each press.
pub struct Config {
    /// Byte prefix a display name must start with to be selected.
    pub identity_filter: Vec<u8>,
    /// Bit(s) within [`Frame::buttons_mask`] that count as the trigger.
    pub trigger_button: u32,
    /// Clip duration in frames; each annotation ends at its press frame.
    pub clip_len: i32,
    /// Text pushed onto the store's shared blob for each annotation.
    pub message: Vec<u8>,
}

} // verus!
