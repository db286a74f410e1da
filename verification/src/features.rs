//! What a build of the program can do, as plain values.

use vstd::prelude::*;

verus! {

/// The parts of the program that depend on the platform and on how it was
/// built.
#[derive(Debug, Clone, Copy, PartialEq, Eq, Structural)]
pub struct Features {
    /// Built for macOS.
    pub macos: bool,
    /// Has the Raspberry Pi camera source: Linux, with `rpicam` turned on.
    pub rpicam: bool,
    /// Has windows to draw in.
    pub render: bool,
    /// Has speaker output.
    pub playback: bool,
}

impl Features {
    /// What the command line program has when nothing is asked for: windows and
    /// speakers, on a system that is not macOS, and no Raspberry Pi camera.
    pub open spec fn stock() -> Features {
        Features { macos: false, rpicam: false, render: true, playback: true }
    }
}

impl Default for Features {
    fn default() -> (r: Features)
        ensures
            r == Features::stock(),
            !r.macos && !r.rpicam && r.render && r.playback,
    {
        Features { macos: false, rpicam: false, render: true, playback: true }
    }
}

} // verus!
