//! Identity of one occurrence of a note: the note, the placement it plays
//! in, and the loop iteration of that placement. The probability gate and
//! the active-note tracking tell occurrences apart by this key.
use vstd::prelude::*;

verus! {

/// Identity of one note occurrence.
#[derive(Debug, Clone, Copy, PartialEq, Eq, Hash, Structural)]
pub struct NoteOccurrenceKey {
    pub note_id: u128,
    pub placement_id: u128,
    pub loop_iteration: u64,
}

impl NoteOccurrenceKey {
    /// Creates the key of the `loop_iteration`-th occurrence of a note in a
    /// placement.
    pub fn new(note_id: u128, placement_id: u128, loop_iteration: u64) -> (k: Self)
        ensures
            k == (NoteOccurrenceKey { note_id, placement_id, loop_iteration }),
    {
        Self { note_id, placement_id, loop_iteration }
    }

    /// The note's identity.
    pub fn note_id(&self) -> (r: &u128)
        ensures
            *r == self.note_id,
    {
        &self.note_id
    }

    /// The placement's identity.
    pub fn placement_id(&self) -> (r: &u128)
        ensures
            *r == self.placement_id,
    {
        &self.placement_id
    }

    /// The loop iteration.
    pub fn loop_iteration(&self) -> (r: u64)
        ensures
            r == self.loop_iteration,
    {
        self.loop_iteration
    }
}

} // verus!
