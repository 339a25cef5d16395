//! Capture microphone input while a background clip plays, keeping only the
//! part between the leading and the trailing silence.
//!
//! The library holds the frame buffers, the activity detector that decides
//! whether a buffer is silent, and the decisions of a record session. Devices,
//! files and threads are left to the caller.

pub mod activity;
pub mod sample;
pub mod session;
pub mod track;

pub use activity::{
    envelope, frames_are_silent, lemma_flat_envelope_is_silent, lemma_single_burst_is_active,
    lemma_zero_frames_are_silent, ENVELOPE_SIZE, SILENCE_THRESHOLD,
};
pub use sample::{Sample, Sampleable, CHANNELS, DEFAULT_SAMPLE_RATE};
pub use session::{
    keep_playing, lemma_cancel_at_most_once, lemma_leading_silence_not_written, step, Action, Event, Phase, StopPoll,
};
pub use track::Track;

use vstd::prelude::*;

verus! {

/// Something that plays samples.
pub trait Player {}

} // verus!
