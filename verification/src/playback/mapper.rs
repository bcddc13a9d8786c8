//! Translation of scheduler events into playback events.
use crate::playback::enums::PlaybackEventKind;
use crate::playback::playback_event::PlaybackEvent;
use crate::scheduler::enums::NoteState;
use crate::scheduler::scheduled_event::ScheduledEvent;
use vstd::prelude::*;

verus! {

/// Channel of every mapped event.
pub const DEFAULT_CHANNEL: u8 = 1;

/// Probability recorded on every mapped event.
pub const FULL_PROBABILITY: u8 = 127;

/// The playback event of a scheduler event: same beat, note identity and
/// occurrence, default channel and full probability; an On edge becomes a
/// `NoteOn` with the note's value and velocity, an Off edge a `NoteOff`.
pub open spec fn playback_event_of(event: ScheduledEvent) -> PlaybackEvent {
    PlaybackEvent {
        beat: event.scheduled_beat,
        note_id: event.note.spec_id(),
        occurrence_key: event.occurrence_key,
        probability: FULL_PROBABILITY,
        channel: DEFAULT_CHANNEL,
        kind: match event.state {
            NoteState::On => PlaybackEventKind::NoteOn {
                note: event.note.spec_note(),
                velocity: event.note.spec_velocity(),
            },
            NoteState::Off => PlaybackEventKind::NoteOff { note: event.note.spec_note() },
        },
    }
}

/// Maps a scheduler event to its playback event.
pub fn map_scheduled_event(event: &ScheduledEvent<'_>) -> (r: PlaybackEvent)
    ensures
        r == playback_event_of(*event),
{
    let note = event.note();
    let channel = DEFAULT_CHANNEL;
    match event.state() {
        NoteState::On => PlaybackEvent {
            beat: event.beat(),
            note_id: *note.id(),
            occurrence_key: event.occurrence_key(),
            probability: FULL_PROBABILITY,
            channel,
            kind: PlaybackEventKind::NoteOn { note: note.note(), velocity: note.velocity() },
        },
        NoteState::Off => PlaybackEvent {
            beat: event.beat(),
            note_id: *note.id(),
            occurrence_key: event.occurrence_key(),
            probability: FULL_PROBABILITY,
            channel,
            kind: PlaybackEventKind::NoteOff { note: note.note() },
        },
    }
}

impl<'a, 'b> From<&'b ScheduledEvent<'a>> for PlaybackEvent {
    /// Converts a borrowed scheduler event into an owned playback event.
    fn from(event: &'b ScheduledEvent<'a>) -> (r: Self) {
        map_scheduled_event(event)
    }
}

impl<'a, 'b> vstd::std_specs::convert::FromSpecImpl<&'b ScheduledEvent<'a>> for PlaybackEvent {
    open spec fn obeys_from_spec() -> bool {
        true
    }

    open spec fn from_spec(event: &'b ScheduledEvent<'a>) -> Self {
        playback_event_of(*event)
    }
}

} // verus!
