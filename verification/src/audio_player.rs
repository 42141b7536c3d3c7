//! Commands understood by the audio output collaborator, and the pulse it
//! sends back when it finished playing.

use vstd::prelude::*;

verus! {

/// A command to the audio output collaborator.
#[derive(Debug)]
pub enum AudioControl {
    Tick,
    Play(Vec<u8>),
    PlayMulti(Vec<Vec<u8>>),
    Volume(u32),
    Stop,
    Pause,
    Resume,
    Quit,
}

/// The ready-for-next pulse the audio collaborator emits each time it
/// becomes idle after having played something.
#[derive(Debug)]
pub struct AudioControlRdy {}

} // verus!
