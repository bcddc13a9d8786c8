//! Playback events with an absolute sample deadline.
use crate::playback::enums::PlaybackEventKind;
use crate::playback::playback_event::PlaybackEvent;
use crate::scheduler::occurrence::NoteOccurrenceKey;
use crate::tempo::{beats_to_samples_of, Tempo};
use vstd::prelude::*;

verus! {

/// A playback event with an absolute sample deadline for realtime
/// execution.
#[derive(Debug, Clone, Copy, PartialEq, Eq, Structural)]
pub struct TimedPlaybackEvent {
    pub sample_position: u64,
    pub note_id: u128,
    pub occurrence_key: NoteOccurrenceKey,
    pub channel: u8,
    pub kind: PlaybackEventKind,
}

/// The timed event of a playback event at `samples_per_beat`: its beat
/// converted to samples, the other fields kept.
pub open spec fn timed_event_of(event: PlaybackEvent, samples_per_beat: u64) -> TimedPlaybackEvent {
    TimedPlaybackEvent {
        sample_position: beats_to_samples_of(samples_per_beat, event.beat),
        note_id: event.note_id,
        occurrence_key: event.occurrence_key,
        channel: event.channel,
        kind: event.kind,
    }
}

impl TimedPlaybackEvent {
    /// Gives a playback event its sample deadline at `tempo`.
    pub fn from_playback_event(event: &PlaybackEvent, tempo: &Tempo) -> (r: Self)
        ensures
            r == timed_event_of(*event, tempo.spec_samples_per_beat()),
    {
        Self {
            sample_position: tempo.beats_to_samples(event.beat),
            note_id: event.note_id,
            occurrence_key: event.occurrence_key,
            channel: event.channel,
            kind: event.kind,
        }
    }
}

} // verus!
