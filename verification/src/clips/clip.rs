//! Reusable musical content: a clip-local length and a playback mode, and
//! the registry of clips by identity.
use crate::clips::enums::{ClipPlaybackMode, ClipPlaybackModeError};
use crate::ids::{is_random_id, new_random_id};
use std::collections::HashMap;
use vstd::prelude::*;

verus! {

/// The error a playback mode is refused with for a clip of length
/// `clip_length`, if any: a loop must start at or after 0, end after its
/// start, and end within the clip; these are checked in that order.
pub open spec fn playback_mode_error(clip_length: i64, playback_mode: ClipPlaybackMode) -> Option<
    ClipPlaybackModeError,
> {
    match playback_mode {
        ClipPlaybackMode::OneShot => None,
        ClipPlaybackMode::Loop { start_beat, end_beat } => {
            if start_beat < 0 {
                Some(ClipPlaybackModeError::LoopStartNegative)
            } else if end_beat <= start_beat {
                Some(ClipPlaybackModeError::LoopEndNotAfterStart)
            } else if end_beat > clip_length {
                Some(ClipPlaybackModeError::LoopEndExceedsClipLength)
            } else {
                None
            }
        },
    }
}

/// The error `Clip::new` reports for a length and playback mode, if any.
/// A length that is not positive is reported as `LoopBoundsNotFinite`;
/// otherwise the playback mode is checked.
pub open spec fn clip_error(length: i64, playback_mode: ClipPlaybackMode) -> Option<
    ClipPlaybackModeError,
> {
    if length <= 0 {
        Some(ClipPlaybackModeError::LoopBoundsNotFinite)
    } else {
        playback_mode_error(length, playback_mode)
    }
}

/// Reusable musical content with a local length (ticks) and looping
/// behaviour.
#[derive(Debug)]
pub struct Clip {
    id: u128,
    length: i64,
    playback_mode: ClipPlaybackMode,
}

impl Clip {
    #[verifier::type_invariant]
    spec fn inv(&self) -> bool {
        clip_error(self.length, self.playback_mode) is None
    }

    /// The clip's identity.
    pub closed spec fn spec_id(&self) -> u128 {
        self.id
    }

    /// The clip's length (ticks).
    pub closed spec fn spec_length(&self) -> i64 {
        self.length
    }

    /// The clip's playback mode.
    pub closed spec fn spec_playback_mode(&self) -> ClipPlaybackMode {
        self.playback_mode
    }

    /// Creates a clip with a fresh random identity, if the length is
    /// positive and a loop lies within `0..=length` with its end after its
    /// start.
    pub fn new(length: i64, playback_mode: ClipPlaybackMode) -> (r: Result<
        Self,
        ClipPlaybackModeError,
    >)
        ensures
            match r {
                Ok(c) => {
                    &&& clip_error(length, playback_mode) is None
                    &&& c.spec_length() == length
                    &&& c.spec_playback_mode() == playback_mode
                    &&& is_random_id(c.spec_id())
                },
                Err(e) => clip_error(length, playback_mode) == Some(e),
            },
    {
        if length <= 0 {
            return Err(ClipPlaybackModeError::LoopBoundsNotFinite);
        }
        match Self::validate_playback_mode(length, playback_mode) {
            Ok(()) => {},
            Err(e) => {
                return Err(e);
            },
        }
        Ok(Self { id: new_random_id(), length, playback_mode })
    }

    fn validate_playback_mode(clip_length: i64, playback_mode: ClipPlaybackMode) -> (r: Result<
        (),
        ClipPlaybackModeError,
    >)
        ensures
            match r {
                Ok(_) => playback_mode_error(clip_length, playback_mode) is None,
                Err(e) => playback_mode_error(clip_length, playback_mode) == Some(e),
            },
    {
        match playback_mode {
            ClipPlaybackMode::OneShot => Ok(()),
            ClipPlaybackMode::Loop { start_beat, end_beat } => {
                if start_beat < 0 {
                    return Err(ClipPlaybackModeError::LoopStartNegative);
                }
                if end_beat <= start_beat {
                    return Err(ClipPlaybackModeError::LoopEndNotAfterStart);
                }
                if end_beat > clip_length {
                    return Err(ClipPlaybackModeError::LoopEndExceedsClipLength);
                }
                Ok(())
            },
        }
    }

    /// The clip's identity.
    pub fn id(&self) -> (r: &u128)
        ensures
            *r == self.spec_id(),
    {
        &self.id
    }

    /// The clip's length (ticks).
    #[verifier::when_used_as_spec(spec_length)]
    pub fn length(&self) -> (r: i64)
        ensures
            r == self.spec_length(),
            clip_error(r, self.spec_playback_mode()) is None,
    {
        proof {
            use_type_invariant(self);
        }
        self.length
    }

    /// The clip's playback mode.
    #[verifier::when_used_as_spec(spec_playback_mode)]
    pub fn playback_mode(&self) -> (r: ClipPlaybackMode)
        ensures
            r == self.spec_playback_mode(),
            clip_error(self.spec_length(), r) is None,
    {
        proof {
            use_type_invariant(self);
        }
        self.playback_mode
    }
}

/// The registry of clips, each under its own identity.
pub struct Clips {
    clips: HashMap<u128, Clip>,
}

impl Clips {
    #[verifier::type_invariant]
    spec fn inv(&self) -> bool {
        forall|id: u128| #[trigger] self.clips@.contains_key(id) ==> self.clips@[id].spec_id() == id
    }

    /// The clips by identity.
    pub closed spec fn spec_clips(&self) -> Map<u128, Clip> {
        self.clips@
    }

    /// An empty registry.
    pub fn new() -> (r: Self)
        ensures
            r.spec_clips() == Map::<u128, Clip>::empty(),
    {
        Clips { clips: HashMap::new() }
    }

    /// Registers `clip` under its identity (replacing a clip of the same
    /// identity) and returns that identity.
    pub fn add(&mut self, clip: Clip) -> (id: u128)
        ensures
            id == clip.spec_id(),
            final(self).spec_clips() == old(self).spec_clips().insert(id, clip),
    {
        broadcast use vstd::std_specs::hash::group_hash_axioms;

        proof {
            use_type_invariant(&*self);
        }
        let id = *clip.id();
        let mut clips = HashMap::new();
        std::mem::swap(&mut clips, &mut self.clips);
        clips.insert(id, clip);
        self.clips = clips;
        id
    }

    /// The clip registered under `id`, if any.
    pub fn get(&self, id: &u128) -> (r: Option<&Clip>)
        ensures
            match r {
                Some(c) => {
                    &&& self.spec_clips().contains_key(*id)
                    &&& *c == self.spec_clips()[*id]
                    &&& c.spec_id() == *id
                },
                None => !self.spec_clips().contains_key(*id),
            },
    {
        broadcast use vstd::std_specs::hash::group_hash_axioms;

        proof {
            use_type_invariant(self);
        }
        self.clips.get(id)
    }
}

} // verus!
