//! Where a clip appears on the global timeline and for how long, and the
//! registry of placements by identity.
use crate::ids::{is_random_id, new_random_id};
use std::collections::HashMap;
use vstd::prelude::*;

verus! {

/// Whether `ClipPlacement::new` refuses the start for these arguments.
pub open spec fn placement_start_refused(start_beat: i64) -> bool {
    start_beat < 0
}

/// Whether `ClipPlacement::new` refuses the length for these arguments: a
/// length that is not positive, or an end past the last representable beat.
pub open spec fn placement_length_refused(start_beat: i64, length: i64) -> bool {
    length <= 0 || start_beat + length > i64::MAX
}

/// One placement of a clip on the global timeline: start beat and length
/// (ticks).
#[derive(Debug)]
pub struct ClipPlacement {
    id: u128,
    clip_id: u128,
    start_beat: i64,
    length: i64,
}

impl ClipPlacement {
    #[verifier::type_invariant]
    spec fn inv(&self) -> bool {
        !placement_start_refused(self.start_beat) && !placement_length_refused(
            self.start_beat,
            self.length,
        )
    }

    /// The placement's identity.
    pub closed spec fn spec_id(&self) -> u128 {
        self.id
    }

    /// The identity of the placed clip.
    pub closed spec fn spec_clip_id(&self) -> u128 {
        self.clip_id
    }

    /// Global start beat (ticks).
    pub closed spec fn spec_start_beat(&self) -> i64 {
        self.start_beat
    }

    /// Length (ticks).
    pub closed spec fn spec_length(&self) -> i64 {
        self.length
    }

    /// Creates a placement of `clip_id` with a fresh random identity. The
    /// start must be non-negative and the length positive.
    pub fn new(clip_id: u128, start_beat: i64, length: i64) -> (r: Result<Self, String>)
        ensures
            match r {
                Ok(p) => {
                    &&& !placement_start_refused(start_beat)
                    &&& !placement_length_refused(start_beat, length)
                    &&& p.spec_clip_id() == clip_id
                    &&& p.spec_start_beat() == start_beat
                    &&& p.spec_length() == length
                    &&& is_random_id(p.spec_id())
                },
                Err(msg) => if placement_start_refused(start_beat) {
                    msg@ == "Placement start must be finite and non-negative"@
                } else {
                    &&& placement_length_refused(start_beat, length)
                    &&& msg@ == "Placement length must be finite and greater than zero"@
                },
            },
    {
        if start_beat < 0 {
            return Err("Placement start must be finite and non-negative".to_owned());
        }
        if length <= 0 || length > i64::MAX - start_beat {
            return Err("Placement length must be finite and greater than zero".to_owned());
        }
        Ok(Self { id: new_random_id(), clip_id, start_beat, length })
    }

    /// The placement's identity.
    pub fn id(&self) -> (r: &u128)
        ensures
            *r == self.spec_id(),
    {
        &self.id
    }

    /// The identity of the placed clip.
    pub fn clip_id(&self) -> (r: &u128)
        ensures
            *r == self.spec_clip_id(),
    {
        &self.clip_id
    }

    /// Global start beat (ticks).
    #[verifier::when_used_as_spec(spec_start_beat)]
    pub fn start_beat(&self) -> (r: i64)
        ensures
            r == self.spec_start_beat(),
            r >= 0,
            r + self.spec_length() <= i64::MAX,
    {
        proof {
            use_type_invariant(self);
        }
        self.start_beat
    }

    /// Global end beat (ticks): start plus length.
    pub fn end_beat(&self) -> (r: i64)
        ensures
            r == self.spec_start_beat() + self.spec_length(),
    {
        proof {
            use_type_invariant(self);
        }
        self.start_beat + self.length
    }

    /// Length (ticks).
    #[verifier::when_used_as_spec(spec_length)]
    pub fn length(&self) -> (r: i64)
        ensures
            r == self.spec_length(),
            r > 0,
            self.spec_start_beat() + r <= i64::MAX,
    {
        proof {
            use_type_invariant(self);
        }
        self.length
    }
}

/// The registry of placements, each under its own identity.
pub struct ClipPlacements {
    placements: HashMap<u128, ClipPlacement>,
}

impl ClipPlacements {
    #[verifier::type_invariant]
    spec fn inv(&self) -> bool {
        forall|id: u128| #[trigger]
            self.placements@.contains_key(id) ==> self.placements@[id].spec_id() == id
    }

    /// The placements by identity.
    pub closed spec fn spec_placements(&self) -> Map<u128, ClipPlacement> {
        self.placements@
    }

    /// An empty registry.
    pub fn new() -> (r: Self)
        ensures
            r.spec_placements() == Map::<u128, ClipPlacement>::empty(),
    {
        ClipPlacements { placements: HashMap::new() }
    }

    /// Registers `placement` under its identity (replacing one of the same
    /// identity) and returns that identity.
    pub fn add(&mut self, placement: ClipPlacement) -> (id: u128)
        ensures
            id == placement.spec_id(),
            final(self).spec_placements() == old(self).spec_placements().insert(id, placement),
    {
        broadcast use vstd::std_specs::hash::group_hash_axioms;

        proof {
            use_type_invariant(&*self);
        }
        let id = *placement.id();
        let mut placements = HashMap::new();
        std::mem::swap(&mut placements, &mut self.placements);
        placements.insert(id, placement);
        self.placements = placements;
        id
    }

    /// The placement registered under `id`, if any.
    pub fn get(&self, id: &u128) -> (r: Option<&ClipPlacement>)
        ensures
            match r {
                Some(p) => {
                    &&& self.spec_placements().contains_key(*id)
                    &&& *p == self.spec_placements()[*id]
                    &&& p.spec_id() == *id
                },
                None => !self.spec_placements().contains_key(*id),
            },
    {
        broadcast use vstd::std_specs::hash::group_hash_axioms;

        proof {
            use_type_invariant(self);
        }
        self.placements.get(id)
    }
}

} // verus!
