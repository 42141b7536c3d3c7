//! A scheduling core for a timeline text-to-speech reader.
//!
//! The library owns the per-timeline queues (`scheduler::Context`), the
//! playback settings, and the decision logic of the scheduling loop
//! (`engine::Scheduler`).  All state transitions are verified; the thin
//! process shell that moves bytes between collaborators lives outside.

pub mod audio_player;
pub mod display_bridge;
pub mod engine;
pub mod scheduler;
pub mod twitter_agent;
pub mod twitter_client;
pub mod twitter_data;
pub mod user_input;
pub mod voicegen_agent;
pub mod voicegen_client;
pub mod voicegen_data;
pub mod voicegen_filter;
pub mod voicegen_observer;

use vstd::prelude::*;

verus! {

/// Number of played records each timeline keeps before evicting the oldest.
pub const HISTORY_LENGTH: usize = 1024;

} // verus!
