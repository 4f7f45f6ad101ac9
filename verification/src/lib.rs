//! Replay annotation core: finds rising-edge button presses in a recorded
//! match and appends clip annotations to a columnar note store.
//!
//! The pipeline has three stages: a participant selector that picks the
//! port whose display name matches an identity filter, an edge detector
//! that lists the frame indices where a trigger button becomes pressed,
//! and an appender that adds one bounded clip annotation per press unless
//! it would collide with an annotation already in the store.
//!
//! Decoding a replay container into a [`recording::Recording`] and a
//! [`notes::Notes`] store, and writing the mutated store back out, belong
//! to an external codec; this crate works on the decoded values only.

use vstd::prelude::*;

pub mod detect;
pub mod notes;
pub mod pipeline;
pub mod recording;
pub mod select;

verus! {

/// A terminal failure of the annotation pipeline.
#[derive(Clone, Copy, Debug, PartialEq, Eq, Structural)]
pub enum PipelineError {
    /// The identity filter matched no participant display name.
    ParticipantNotFound,
    /// The selected participant's port has no recorded frame sequence.
    NoFramesForParticipant,
}

} // verus!
