use vstd::prelude::*;

verus! {

/// What a playback event does.
#[derive(Debug, PartialEq, Eq, Ord, PartialOrd, Clone, Copy, Structural)]
pub enum PlaybackEventKind {
    NoteOff { note: u8 },
    NoteOn { note: u8, velocity: u8 },
    ControlChange,
    ProgramChange,
    ParameterChange,
    PitchWheelChange,
    Aftertouch,
    ChannelPressure,
}

/// Why a probability entry was refused.
#[derive(Debug, PartialEq, Eq, Ord, PartialOrd, Clone, Copy, Structural)]
pub enum ProbabilityError {
    ChanceOutOfRange(u8),
    NilTargetId,
    TargetNotFound(u128),
}

/// What a probability applies to.
#[derive(Debug, PartialEq, Eq, Ord, PartialOrd, Clone, Copy, Structural)]
pub enum ProbabilityTarget {
    Note,
    Parameter,
    Clip,
}

} // verus!
