//! A note edge (on or off) at a global beat, for one note occurrence.
use crate::scheduler::enums::{note_state_rank, NoteState};
use crate::scheduler::occurrence::NoteOccurrenceKey;
use crate::scheduler::scheduled_note::ScheduledNote;
use crate::sorting::KeyOrder;
use vstd::prelude::*;

verus! {

/// A note switching on or off at a global beat (ticks), borrowed from its
/// `ScheduledNote`, with the identity of the occurrence it belongs to.
pub struct ScheduledEvent<'a> {
    pub note: &'a ScheduledNote,
    pub state: NoteState,
    pub scheduled_beat: i64,
    pub occurrence_key: NoteOccurrenceKey,
}

impl<'a> ScheduledEvent<'a> {
    /// Creates an event.
    pub fn new(
        note: &'a ScheduledNote,
        state: NoteState,
        scheduled_beat: i64,
        occurrence_key: NoteOccurrenceKey,
    ) -> (e: Self)
        ensures
            e == (ScheduledEvent { note, state, scheduled_beat, occurrence_key }),
    {
        ScheduledEvent { note, state, scheduled_beat, occurrence_key }
    }

    /// The note.
    pub fn note(&self) -> (r: &ScheduledNote)
        ensures
            *r == *self.note,
    {
        self.note
    }

    /// The global beat (ticks) of the event.
    pub fn beat(&self) -> (r: i64)
        ensures
            r == self.scheduled_beat,
    {
        self.scheduled_beat
    }

    /// On or off.
    pub fn state(&self) -> (r: NoteState)
        ensures
            r == self.state,
    {
        self.state
    }

    /// The loop iteration of the occurrence.
    pub fn loop_iteration(&self) -> (r: u64)
        ensures
            r == self.occurrence_key.loop_iteration,
    {
        self.occurrence_key.loop_iteration()
    }

    /// The occurrence's identity.
    pub fn occurrence_key(&self) -> (r: NoteOccurrenceKey)
        ensures
            r == self.occurrence_key,
    {
        self.occurrence_key
    }
}

/// Events are ordered by beat, then `Off` before `On`, then note identity.
impl<'a> KeyOrder for ScheduledEvent<'a> {
    open spec fn key_le(self, other: Self) -> bool {
        ||| self.scheduled_beat < other.scheduled_beat
        ||| self.scheduled_beat == other.scheduled_beat && note_state_rank(self.state)
            < note_state_rank(other.state)
        ||| self.scheduled_beat == other.scheduled_beat && self.state == other.state
            && self.note.spec_id() <= other.note.spec_id()
    }

    proof fn lemma_key_le_total(a: Self, b: Self) {
    }

    proof fn lemma_key_le_transitive(a: Self, b: Self, c: Self) {
    }

    fn precedes_or_ties(&self, other: &Self) -> (r: bool) {
        if self.scheduled_beat != other.scheduled_beat {
            return self.scheduled_beat < other.scheduled_beat;
        }
        if self.state != other.state {
            return self.state == NoteState::Off;
        }
        *self.note.id() <= *other.note.id()
    }
}

} // verus!
