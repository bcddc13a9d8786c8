//! Global playback state and sample position.
//!
//! The transport owns the playback state and the sample position; beat and
//! bar positions are derived from it through a [`Tempo`].
use crate::tempo::{samples_to_beats_of, Tempo};
use crate::transport::enums::TransportState;
use vstd::prelude::*;

verus! {

/// Playback state and sample position.
pub struct Transport {
    state: TransportState,
    sample_position: u64,
}

impl Transport {
    /// The playback state.
    pub closed spec fn spec_state(&self) -> TransportState {
        self.state
    }

    /// The sample position.
    pub closed spec fn spec_sample_position(&self) -> u64 {
        self.sample_position
    }

    /// A stopped transport at sample zero.
    pub fn new() -> (t: Self)
        ensures
            t.spec_state() == TransportState::Stopped,
            t.spec_sample_position() == 0,
    {
        Transport { state: TransportState::Stopped, sample_position: 0 }
    }

    /// The playback state.
    #[verifier::when_used_as_spec(spec_state)]
    pub fn state(&self) -> (s: TransportState)
        ensures
            s == self.spec_state(),
    {
        self.state
    }

    /// Starts playback; the position is kept.
    pub fn play(&mut self)
        ensures
            final(self).spec_state() == TransportState::Playing,
            final(self).spec_sample_position() == old(self).spec_sample_position(),
    {
        if self.state == TransportState::Playing {
            return;
        }
        self.state = TransportState::Playing;
    }

    /// Pauses playback; the position is kept.
    pub fn pause(&mut self)
        ensures
            final(self).spec_state() == TransportState::Paused,
            final(self).spec_sample_position() == old(self).spec_sample_position(),
    {
        self.state = TransportState::Paused;
    }

    /// Stops playback and returns to sample zero.
    pub fn stop(&mut self)
        ensures
            final(self).spec_state() == TransportState::Stopped,
            final(self).spec_sample_position() == 0,
    {
        self.state = TransportState::Stopped;
        self.sample_position = 0;
    }

    /// Advances by `samples` while playing; in any other state nothing
    /// changes.
    pub fn advance_s(&mut self, samples: u64)
        requires
            old(self).spec_state() == TransportState::Playing ==> old(self).spec_sample_position()
                + samples <= u64::MAX,
        ensures
            final(self).spec_state() == old(self).spec_state(),
            final(self).spec_sample_position() == if old(self).spec_state()
                == TransportState::Playing {
                (old(self).spec_sample_position() + samples) as u64
            } else {
                old(self).spec_sample_position()
            },
    {
        if self.state == TransportState::Playing {
            self.sample_position = self.sample_position + samples;
        }
    }

    /// Advances by a beat length (ticks) converted to samples at `tempo`,
    /// while playing; in any other state nothing changes.
    pub fn advance_b(&mut self, ticks: i64, tempo: &Tempo)
        requires
            old(self).spec_state() == TransportState::Playing ==> old(self).spec_sample_position()
                + crate::tempo::beats_to_samples_of(tempo.spec_samples_per_beat(), ticks)
                <= u64::MAX,
        ensures
            final(self).spec_state() == old(self).spec_state(),
            final(self).spec_sample_position() == if old(self).spec_state()
                == TransportState::Playing {
                (old(self).spec_sample_position() + crate::tempo::beats_to_samples_of(
                    tempo.spec_samples_per_beat(),
                    ticks,
                )) as u64
            } else {
                old(self).spec_sample_position()
            },
    {
        if self.state == TransportState::Playing {
            let samples_to_advance = tempo.beats_to_samples(ticks);
            self.sample_position = self.sample_position + samples_to_advance;
        }
    }

    /// Whether the transport is playing.
    pub fn is_playing(&self) -> (b: bool)
        ensures
            b == (self.spec_state() == TransportState::Playing),
    {
        self.state == TransportState::Playing
    }

    /// The sample position.
    #[verifier::when_used_as_spec(spec_sample_position)]
    pub fn sample_position(&self) -> (p: u64)
        ensures
            p == self.spec_sample_position(),
    {
        self.sample_position
    }

    /// Moves to a sample position; the state is kept.
    pub fn set_sample_position(&mut self, position: u64)
        ensures
            final(self).spec_sample_position() == position,
            final(self).spec_state() == old(self).spec_state(),
    {
        self.sample_position = position;
    }

    /// Beat position (ticks) of the sample position at `tempo`.
    pub open spec fn spec_beat_position(&self, tempo: &Tempo) -> i64 {
        samples_to_beats_of(tempo.spec_samples_per_beat(), self.spec_sample_position())
    }

    /// Beat position (ticks) of the sample position at `tempo`, rounded down.
    #[verifier::when_used_as_spec(spec_beat_position)]
    pub fn beat_position(&self, tempo: &Tempo) -> (b: i64)
        ensures
            b == self.spec_beat_position(tempo),
    {
        tempo.samples_to_beats(self.sample_position)
    }

    /// Bar position at `tempo`, in ticks of a bar (a bar is
    /// `TICKS_PER_BEAT` ticks): the beat position over the beats per bar,
    /// rounded down. With zero beats per bar it is held at `i64::MAX`.
    pub fn bar_position(&self, tempo: &Tempo) -> (b: i64)
        ensures
            b == if tempo.spec_time_signature().0 == 0 {
                i64::MAX
            } else {
                crate::tempo::clamp_i64(
                    self.spec_beat_position(tempo) as int / tempo.spec_time_signature().0 as int,
                )
            },
    {
        let beats_per_bar = tempo.time_signature().0;
        let beat = self.beat_position(tempo);
        if beats_per_bar == 0 {
            return i64::MAX;
        }
        if beat < 0 {
            // beat positions are never negative
            return 0;
        }
        ((beat as u64) / beats_per_bar) as i64
    }
}

} // verus!
