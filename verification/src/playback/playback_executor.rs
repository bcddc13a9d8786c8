//! Executes due timed events: keeps track of the notes they leave sounding.
use crate::playback::active_notes::{after_tracking, is_timed_panic_offs, ActiveNote, ActiveNotes};
use crate::playback::timed_playback_event::TimedPlaybackEvent;
use crate::scheduler::occurrence::NoteOccurrenceKey;
use vstd::prelude::*;

verus! {

/// Tracks the notes sounding after the events executed so far.
#[derive(Debug, Default)]
pub struct PlaybackExecutor {
    active_notes: ActiveNotes,
}

impl PlaybackExecutor {
    /// The sounding notes by occurrence.
    pub closed spec fn spec_active(&self) -> Map<NoteOccurrenceKey, ActiveNote> {
        self.active_notes.spec_active()
    }

    /// An executor with nothing sounding.
    pub fn new() -> (r: Self)
        ensures
            r.spec_active() == Map::<NoteOccurrenceKey, ActiveNote>::empty(),
    {
        Self { active_notes: ActiveNotes::new() }
    }

    /// Executes one event: a NoteOn starts its occurrence sounding, a
    /// NoteOff stops it.
    pub fn execute(&mut self, event: &TimedPlaybackEvent)
        ensures
            final(self).spec_active() == after_tracking(
                old(self).spec_active(),
                event.occurrence_key,
                event.note_id,
                event.channel,
                event.kind,
            ),
    {
        self.active_notes.track_timed_event(event);
    }

    /// NoteOffs at `sample_position` for every sounding note; afterwards
    /// nothing sounds.
    pub fn panic_note_offs(&mut self, sample_position: u64) -> (offs: Vec<TimedPlaybackEvent>)
        ensures
            final(self).spec_active() == Map::<NoteOccurrenceKey, ActiveNote>::empty(),
            is_timed_panic_offs(old(self).spec_active(), sample_position, offs@),
    {
        self.active_notes.panic_note_offs_timed(sample_position)
    }

    /// Forgets every sounding note.
    pub fn clear(&mut self)
        ensures
            final(self).spec_active() == Map::<NoteOccurrenceKey, ActiveNote>::empty(),
    {
        self.active_notes.clear();
    }
}

} // verus!
