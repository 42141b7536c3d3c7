//! The speakers a voice engine offers, flattened per style.

use vstd::prelude::*;

use crate::voicegen_data;
use crate::voicegen_data::NetAddr;

verus! {

/// One selectable voice: an engine address plus one speaker style.
#[derive(Debug)]
pub struct Speaker {
    pub addr: NetAddr,
    pub engine: String,
    pub name: String,
    pub style: String,
    pub speaker: u64,
}

impl Speaker {
    /// Flattens one reported speaker into one `Speaker` per style.
    pub fn vec_from(engine: &str, addr: NetAddr, speaker: voicegen_data::Speaker) -> (r: Vec<
        Speaker,
    >)
        ensures
            r@.len() == speaker.styles@.len(),
            forall|i: int|
                0 <= i < r@.len() ==> {
                    &&& (#[trigger] r@[i]).addr == addr
                    &&& r@[i].engine@ == engine@
                    &&& r@[i].name@ == speaker.name@
                    &&& r@[i].style@ == speaker.styles@[i].name@
                    &&& r@[i].speaker == speaker.styles@[i].id
                },
    {
        let mut v = Vec::<Speaker>::new();
        let mut i: usize = 0;
        while i < speaker.styles.len()
            invariant
                i <= speaker.styles@.len(),
                v@.len() == i,
                forall|k: int|
                    0 <= k < i ==> {
                        &&& (#[trigger] v@[k]).addr == addr
                        &&& v@[k].engine@ == engine@
                        &&& v@[k].name@ == speaker.name@
                        &&& v@[k].style@ == speaker.styles@[k].name@
                        &&& v@[k].speaker == speaker.styles@[k].id
                    },
            decreases speaker.styles@.len() - i,
        {
            let style = &speaker.styles[i];
            v.push(
                Speaker {
                    addr,
                    engine: engine.to_owned(),
                    name: speaker.name.clone(),
                    style: style.name.clone(),
                    speaker: style.id,
                },
            );
            i += 1;
        }
        v
    }
}

} // verus!
