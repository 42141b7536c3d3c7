//! Commands the user can issue at any time.

use vstd::prelude::*;

use crate::twitter_agent::Timeline;
use crate::voicegen_observer;

verus! {

/// A user command.  `Jump` navigates to a record id (an empty id stops
/// the audio and discards an in-flight synthesis, touching no queue);
/// `SpeechRate` carries the new rate multiplier in thousandths.
#[derive(Debug)]
pub enum UserInput {
    Jump(String),
    Paused(bool),
    Speaker(voicegen_observer::Speaker),
    SpeechRate(u64),
    TimelineView(Timeline),
}

} // verus!
