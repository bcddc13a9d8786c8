use vstd::prelude::*;

verus! {

/// Errors of the scheduler's window computation.
#[derive(Debug, PartialEq, Eq, Ord, PartialOrd, Clone, Copy, Structural)]
pub enum SchedulerError {
    InvalidLookahead,
    InvalidBeatStart,
    InvalidBeatEnd,
    InvalidNegativeWindow,
    InvalidCursorPosition,
    InvalidTransportPosition,
}

/// Whether an event switches a note on or off. `Off` orders before `On`.
#[derive(Debug, PartialEq, Eq, Ord, PartialOrd, Clone, Copy, Structural)]
pub enum NoteState {
    Off,
    On,
}

/// Errors of note construction and editing.
#[derive(Debug, PartialEq, Eq, Ord, PartialOrd, Clone, Copy, Structural)]
pub enum ScheduledNoteError {
    InvalidStartBeat,
    InvalidLength,
    InvalidNoteValue,
    InvalidVelocity,
    InvalidProbability,
}

/// Kinds of playback events, by name.
#[derive(Debug, PartialEq, Eq, Ord, PartialOrd, Clone, Copy, Structural)]
pub enum PlaybackEventType {
    NoteOff,
    NoteOn,
    ControlChange,
    ProgramChange,
    ParameterChange,
    PitchWheelChange,
    Aftertouch,
    ChannelPressure,
}

/// Rank of a note state in the event order: `Off` before `On`.
pub open spec fn note_state_rank(state: NoteState) -> int {
    match state {
        NoteState::Off => 0,
        NoteState::On => 1,
    }
}

} // verus!
