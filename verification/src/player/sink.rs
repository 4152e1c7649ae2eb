//! What the player knows of the audio output.

use vstd::prelude::*;

verus! {

/// A decode or output failure reported by the sink.
#[derive(Debug)]
pub struct Fault {
    pub message: String,
    /// True when the track currently playing is the one that failed, so the caller should skip
    /// it. A failure loading the *queued* track must not interrupt what is playing now.
    pub affects_current: bool,
}

impl Clone for Fault {
    fn clone(&self) -> (r: Self)
        ensures
            r == *self,
    {
        Fault { message: self.message.clone(), affects_current: self.affects_current }
    }
}

} // verus!
