//! A note's lifetime and parameters in clip-local beats.
//!
//! Invariants:
//! - the start beat is non-negative,
//! - the end beat is after the start beat and not past [`MAX_BEAT`],
//! - the note value and the velocity are at most 127.
use crate::ids::{is_random_id, new_random_id};
use crate::scheduler::enums::ScheduledNoteError;
use vstd::prelude::*;

verus! {

/// Largest end beat a note may have, in ticks (10^12 beats).
pub const MAX_BEAT: i64 = 960_000_000_000_000_000;

/// Largest MIDI note value and velocity.
pub const MAX_MIDI_VALUE: u8 = 127;

/// The error `ScheduledNote::new` reports for these arguments, if any.
pub open spec fn new_note_error(start_beat: i64, note: u8, length: i64) -> Option<
    ScheduledNoteError,
> {
    if start_beat < 0 {
        Some(ScheduledNoteError::InvalidStartBeat)
    } else if note > MAX_MIDI_VALUE {
        Some(ScheduledNoteError::InvalidNoteValue)
    } else if length <= 0 {
        Some(ScheduledNoteError::InvalidLength)
    } else if start_beat + length > MAX_BEAT {
        Some(ScheduledNoteError::InvalidLength)
    } else {
        None
    }
}

/// A note: identity, start and end beat (ticks, clip-local), note value
/// and velocity.
#[derive(Debug, PartialEq)]
pub struct ScheduledNote {
    id: u128,
    start_beat: i64,
    end_beat: i64,
    note: u8,
    velocity: u8,
}

impl ScheduledNote {
    #[verifier::type_invariant]
    spec fn inv(&self) -> bool {
        &&& 0 <= self.start_beat < self.end_beat <= MAX_BEAT
        &&& self.note <= MAX_MIDI_VALUE
        &&& self.velocity <= MAX_MIDI_VALUE
    }

    /// The note's identity.
    pub closed spec fn spec_id(&self) -> u128 {
        self.id
    }

    /// Start beat (ticks).
    pub closed spec fn spec_start_beat(&self) -> i64 {
        self.start_beat
    }

    /// End beat (ticks).
    pub closed spec fn spec_end_beat(&self) -> i64 {
        self.end_beat
    }

    /// Note value.
    pub closed spec fn spec_note(&self) -> u8 {
        self.note
    }

    /// Velocity.
    pub closed spec fn spec_velocity(&self) -> u8 {
        self.velocity
    }

    /// Creates a note starting at `start_beat` and lasting `length` (both in
    /// ticks), with full velocity and a fresh random identity.
    pub fn new(start_beat: i64, note: u8, length: i64) -> (r: Result<Self, ScheduledNoteError>)
        ensures
            match r {
                Ok(n) => {
                    &&& new_note_error(start_beat, note, length) is None
                    &&& n.spec_start_beat() == start_beat
                    &&& n.spec_end_beat() == start_beat + length
                    &&& n.spec_note() == note
                    &&& n.spec_velocity() == MAX_MIDI_VALUE
                    &&& is_random_id(n.spec_id())
                },
                Err(e) => new_note_error(start_beat, note, length) == Some(e),
            },
    {
        if start_beat < 0 {
            return Err(ScheduledNoteError::InvalidStartBeat);
        }
        if note > MAX_MIDI_VALUE {
            return Err(ScheduledNoteError::InvalidNoteValue);
        }
        if length <= 0 {
            return Err(ScheduledNoteError::InvalidLength);
        }
        if length > MAX_BEAT - start_beat {
            return Err(ScheduledNoteError::InvalidLength);
        }
        let id = new_random_id();
        let end_beat = start_beat + length;
        Ok(ScheduledNote { id, start_beat, end_beat, note, velocity: MAX_MIDI_VALUE })
    }

    /// The note's identity.
    pub fn id(&self) -> (r: &u128)
        ensures
            *r == self.spec_id(),
    {
        &self.id
    }

    /// Start beat (ticks).
    #[verifier::when_used_as_spec(spec_start_beat)]
    pub fn start_beat(&self) -> (r: i64)
        ensures
            r == self.spec_start_beat(),
            0 <= r < self.spec_end_beat() <= MAX_BEAT,
    {
        proof {
            use_type_invariant(self);
        }
        self.start_beat
    }

    /// Moves the note so that it starts at `start_beat`, keeping its length.
    /// Refused, with nothing changed, when the start is negative or the end
    /// would reach [`MAX_BEAT`].
    pub fn move_to(&mut self, start_beat: i64) -> (r: Result<(), ScheduledNoteError>)
        ensures
            ({
                let len = old(self).spec_end_beat() - old(self).spec_start_beat();
                if start_beat < 0 || start_beat + len >= MAX_BEAT {
                    &&& r == Err::<(), ScheduledNoteError>(ScheduledNoteError::InvalidStartBeat)
                    &&& *final(self) == *old(self)
                } else {
                    &&& r is Ok
                    &&& final(self).spec_start_beat() == start_beat
                    &&& final(self).spec_end_beat() == start_beat + len
                    &&& final(self).spec_id() == old(self).spec_id()
                    &&& final(self).spec_note() == old(self).spec_note()
                    &&& final(self).spec_velocity() == old(self).spec_velocity()
                }
            }),
    {
        proof {
            use_type_invariant(&*self);
        }
        let len = self.end_beat - self.start_beat;
        if start_beat < 0 || len >= MAX_BEAT - start_beat {
            return Err(ScheduledNoteError::InvalidStartBeat);
        }
        *self = ScheduledNote {
            id: self.id,
            start_beat,
            end_beat: start_beat + len,
            note: self.note,
            velocity: self.velocity,
        };
        Ok(())
    }

    /// End beat (ticks).
    #[verifier::when_used_as_spec(spec_end_beat)]
    pub fn end_beat(&self) -> (r: i64)
        ensures
            r == self.spec_end_beat(),
            0 <= self.spec_start_beat() < r <= MAX_BEAT,
    {
        proof {
            use_type_invariant(self);
        }
        self.end_beat
    }

    /// Length (ticks): end beat minus start beat.
    pub fn length(&self) -> (r: i64)
        ensures
            r == self.spec_end_beat() - self.spec_start_beat(),
            r > 0,
    {
        proof {
            use_type_invariant(self);
        }
        self.end_beat - self.start_beat
    }

    /// Sets the length (ticks), keeping the start. Refused, with nothing
    /// changed, when the length is not positive or the end would reach
    /// [`MAX_BEAT`].
    pub fn set_length(&mut self, length: i64) -> (r: Result<(), ScheduledNoteError>)
        ensures
            if length <= 0 || old(self).spec_start_beat() + length >= MAX_BEAT {
                &&& r == Err::<(), ScheduledNoteError>(ScheduledNoteError::InvalidLength)
                &&& *final(self) == *old(self)
            } else {
                &&& r is Ok
                &&& final(self).spec_start_beat() == old(self).spec_start_beat()
                &&& final(self).spec_end_beat() == old(self).spec_start_beat() + length
                &&& final(self).spec_id() == old(self).spec_id()
                &&& final(self).spec_note() == old(self).spec_note()
                &&& final(self).spec_velocity() == old(self).spec_velocity()
            },
    {
        proof {
            use_type_invariant(&*self);
        }
        if length <= 0 || length >= MAX_BEAT - self.start_beat {
            return Err(ScheduledNoteError::InvalidLength);
        }
        self.end_beat = self.start_beat + length;
        Ok(())
    }

    /// Note value.
    #[verifier::when_used_as_spec(spec_note)]
    pub fn note(&self) -> (r: u8)
        ensures
            r == self.spec_note(),
            r <= MAX_MIDI_VALUE,
    {
        proof {
            use_type_invariant(self);
        }
        self.note
    }

    /// Velocity.
    #[verifier::when_used_as_spec(spec_velocity)]
    pub fn velocity(&self) -> (r: u8)
        ensures
            r == self.spec_velocity(),
            r <= MAX_MIDI_VALUE,
    {
        proof {
            use_type_invariant(self);
        }
        self.velocity
    }

    /// Sets the velocity; refused, with nothing changed, above 127.
    pub fn set_velocity(&mut self, velocity: u8) -> (r: Result<(), ScheduledNoteError>)
        ensures
            if velocity > MAX_MIDI_VALUE {
                &&& r == Err::<(), ScheduledNoteError>(ScheduledNoteError::InvalidVelocity)
                &&& *final(self) == *old(self)
            } else {
                &&& r is Ok
                &&& final(self).spec_velocity() == velocity
                &&& final(self).spec_start_beat() == old(self).spec_start_beat()
                &&& final(self).spec_end_beat() == old(self).spec_end_beat()
                &&& final(self).spec_id() == old(self).spec_id()
                &&& final(self).spec_note() == old(self).spec_note()
            },
    {
        proof {
            use_type_invariant(&*self);
        }
        if velocity > MAX_MIDI_VALUE {
            return Err(ScheduledNoteError::InvalidVelocity);
        }
        self.velocity = velocity;
        Ok(())
    }
}

} // verus!
