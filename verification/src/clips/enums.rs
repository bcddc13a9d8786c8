use vstd::prelude::*;

verus! {

/// How a clip plays: once, or looping over a beat range (ticks,
/// clip-local).
#[derive(Debug, Clone, Copy, PartialEq, Eq, Structural)]
pub enum ClipPlaybackMode {
    OneShot,
    Loop { start_beat: i64, end_beat: i64 },
}

/// Why a clip's length or playback mode was refused.
#[derive(Debug, Clone, Copy, PartialEq, Eq, Structural)]
pub enum ClipPlaybackModeError {
    LoopBoundsNotFinite,
    LoopStartNegative,
    LoopEndNotAfterStart,
    LoopEndExceedsClipLength,
}

} // verus!
