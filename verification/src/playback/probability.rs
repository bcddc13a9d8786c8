//! Probabilities attached to targets (notes, parameters, clips) by
//! identity.
//!
//! Invariants of the collection: every chance is at most 100 and no entry
//! is kept under the nil identity.
use crate::ids::{hyphenated_text, uuid_text};
use crate::playback::enums::{ProbabilityError, ProbabilityTarget};
use std::collections::HashMap;
use vstd::prelude::*;
use vstd::string::StringExecFns;

verus! {

/// Largest chance, in percent.
pub const MAX_CHANCE: u8 = 100;

/// A chance in percent for a target.
#[derive(Debug, Clone, Copy, PartialEq, Eq, Structural)]
pub struct Probability {
    pub chance: u8,
    pub target: ProbabilityTarget,
}

impl Probability {
    /// Creates a probability.
    pub fn new(chance: u8, target: ProbabilityTarget) -> (p: Self)
        ensures
            p == (Probability { chance, target }),
    {
        Probability { chance, target }
    }

    /// The chance in percent.
    pub fn chance(&self) -> (r: u8)
        ensures
            r == self.chance,
    {
        self.chance
    }

    /// The target kind.
    pub fn target(&self) -> (r: ProbabilityTarget)
        ensures
            r == self.target,
    {
        self.target
    }
}

/// The decimal digits of `n`, most significant first.
pub open spec fn decimal_text(n: nat) -> Seq<char>
    decreases n,
{
    if n < 10 {
        seq![(48 + n) as char]
    } else {
        decimal_text(n / 10).push((48 + n % 10) as char)
    }
}

/// The message an error is reported with.
pub open spec fn error_message(e: ProbabilityError) -> Seq<char> {
    match e {
        ProbabilityError::ChanceOutOfRange(chance) => "Chance value "@ + decimal_text(chance as nat)
            + " is out of range (0-100)"@,
        ProbabilityError::NilTargetId => "UUID cannot be nil"@,
        ProbabilityError::TargetNotFound(id) => "UUID "@ + hyphenated_text(id)
            + " does not exist in the probabilities map"@,
    }
}

/// The text of one decimal digit.
fn digit_text(d: u8) -> (s: &'static str)
    requires
        d < 10,
    ensures
        s@ == seq![(48 + d) as char],
{
    match d {
        0 => {
            proof {
                reveal_strlit("0");
            }
            "0"
        },
        1 => {
            proof {
                reveal_strlit("1");
            }
            "1"
        },
        2 => {
            proof {
                reveal_strlit("2");
            }
            "2"
        },
        3 => {
            proof {
                reveal_strlit("3");
            }
            "3"
        },
        4 => {
            proof {
                reveal_strlit("4");
            }
            "4"
        },
        5 => {
            proof {
                reveal_strlit("5");
            }
            "5"
        },
        6 => {
            proof {
                reveal_strlit("6");
            }
            "6"
        },
        7 => {
            proof {
                reveal_strlit("7");
            }
            "7"
        },
        8 => {
            proof {
                reveal_strlit("8");
            }
            "8"
        },
        _ => {
            proof {
                reveal_strlit("9");
            }
            "9"
        },
    }
}

/// Appends the decimal digits of `n` to `text`.
fn push_decimal(text: &mut String, n: u8)
    ensures
        final(text)@ == old(text)@ + decimal_text(n as nat),
    decreases n,
{
    if n >= 10 {
        push_decimal(text, n / 10);
        let ghost middle = text@;
        text.append(digit_text(n % 10));
        assert(decimal_text(n as nat) == decimal_text((n / 10) as nat).push(
            (48 + n % 10) as char,
        ));
        assert(text@ == middle + seq![(48 + n % 10) as char]);
    } else {
        text.append(digit_text(n));
    }
}

/// The message for a chance out of range.
fn chance_error(chance: u8) -> (r: Result<(), String>)
    ensures
        r matches Err(msg) && msg@ == error_message(ProbabilityError::ChanceOutOfRange(chance)),
{
    let mut msg = "Chance value ".to_owned();
    push_decimal(&mut msg, chance);
    msg.append(" is out of range (0-100)");
    Err(msg)
}

/// The error `Probabilities::add` reports for these arguments, if any.
pub open spec fn add_error(id: u128, chance: u8) -> Option<ProbabilityError> {
    if chance > MAX_CHANCE {
        Some(ProbabilityError::ChanceOutOfRange(chance))
    } else if id == 0 {
        Some(ProbabilityError::NilTargetId)
    } else {
        None
    }
}

/// The error `Probabilities::update` reports for these arguments, if any.
pub open spec fn update_error(entries: Map<u128, Probability>, id: u128, chance: u8) -> Option<
    ProbabilityError,
> {
    if chance > MAX_CHANCE {
        Some(ProbabilityError::ChanceOutOfRange(chance))
    } else if !entries.contains_key(id) {
        Some(ProbabilityError::TargetNotFound(id))
    } else {
        None
    }
}

/// Probabilities by target identity.
pub struct Probabilities {
    probabilities: HashMap<u128, Probability>,
}

impl Probabilities {
    #[verifier::type_invariant]
    spec fn inv(&self) -> bool {
        forall|id: u128| #[trigger]
            self.probabilities@.contains_key(id) ==> id != 0 && self.probabilities@[id].chance
                <= MAX_CHANCE
    }

    /// The entries by identity.
    pub closed spec fn spec_entries(&self) -> Map<u128, Probability> {
        self.probabilities@
    }

    /// An empty collection.
    pub fn new() -> (r: Self)
        ensures
            r.spec_entries() == Map::<u128, Probability>::empty(),
    {
        Probabilities { probabilities: HashMap::new() }
    }

    /// Adds (or replaces) the entry for `note_id`. A chance above 100 and
    /// the nil identity are refused, in that order, with their messages
    /// (`error_message`), and nothing changes.
    pub fn add(&mut self, note_id: u128, chance: u8, target: ProbabilityTarget) -> (r: Result<
        (),
        String,
    >)
        ensures
            match add_error(note_id, chance) {
                Some(e) => {
                    &&& r matches Err(msg) && msg@ == error_message(e)
                    &&& final(self).spec_entries() == old(self).spec_entries()
                },
                None => r is Ok && final(self).spec_entries() == old(self).spec_entries().insert(
                    note_id,
                    Probability { chance, target },
                ),
            },
    {
        broadcast use vstd::std_specs::hash::group_hash_axioms;

        proof {
            use_type_invariant(&*self);
        }
        if chance > MAX_CHANCE {
            return chance_error(chance);
        }
        if note_id == 0 {
            return Err("UUID cannot be nil".to_owned());
        }
        let mut probabilities = HashMap::new();
        std::mem::swap(&mut probabilities, &mut self.probabilities);
        probabilities.insert(note_id, Probability { chance, target });
        self.probabilities = probabilities;
        Ok(())
    }

    /// Replaces the chance and target of the existing entry for `note_id`.
    /// A chance above 100 and a missing entry are refused, in that order,
    /// with their messages (`error_message`), and nothing changes.
    pub fn update(&mut self, note_id: &u128, chance: u8, target: ProbabilityTarget) -> (r: Result<
        (),
        String,
    >)
        ensures
            match update_error(old(self).spec_entries(), *note_id, chance) {
                Some(e) => {
                    &&& r matches Err(msg) && msg@ == error_message(e)
                    &&& final(self).spec_entries() == old(self).spec_entries()
                },
                None => r is Ok && final(self).spec_entries() == old(self).spec_entries().insert(
                    *note_id,
                    Probability { chance, target },
                ),
            },
    {
        broadcast use vstd::std_specs::hash::group_hash_axioms;

        proof {
            use_type_invariant(&*self);
        }
        if chance > MAX_CHANCE {
            return chance_error(chance);
        }
        if !self.probabilities.contains_key(note_id) {
            let mut msg = "UUID ".to_owned();
            let id_text = uuid_text(*note_id);
            msg.append(id_text.as_str());
            msg.append(" does not exist in the probabilities map");
            return Err(msg);
        }
        let mut probabilities = HashMap::new();
        std::mem::swap(&mut probabilities, &mut self.probabilities);
        probabilities.insert(*note_id, Probability { chance, target });
        self.probabilities = probabilities;
        Ok(())
    }

    /// The entry for `note_id`, if any.
    pub fn get(&self, note_id: &u128) -> (r: Option<&Probability>)
        ensures
            match r {
                Some(p) => {
                    &&& self.spec_entries().contains_key(*note_id)
                    &&& *p == self.spec_entries()[*note_id]
                    &&& p.chance <= MAX_CHANCE
                },
                None => !self.spec_entries().contains_key(*note_id),
            },
    {
        broadcast use vstd::std_specs::hash::group_hash_axioms;

        proof {
            use_type_invariant(self);
        }
        self.probabilities.get(note_id)
    }

    /// Removes the entry for `note_id`, if any.
    pub fn remove(&mut self, note_id: &u128)
        ensures
            final(self).spec_entries() == old(self).spec_entries().remove(*note_id),
    {
        broadcast use vstd::std_specs::hash::group_hash_axioms;

        proof {
            use_type_invariant(&*self);
        }
        let mut probabilities = HashMap::new();
        std::mem::swap(&mut probabilities, &mut self.probabilities);
        probabilities.remove(note_id);
        self.probabilities = probabilities;
    }

    /// Removes every entry.
    pub fn clear(&mut self)
        ensures
            final(self).spec_entries() == Map::<u128, Probability>::empty(),
    {
        let mut probabilities = HashMap::new();
        std::mem::swap(&mut probabilities, &mut self.probabilities);
        probabilities.clear();
        self.probabilities = probabilities;
    }

    /// The number of entries.
    pub fn len(&self) -> (r: usize)
        ensures
            self.spec_entries().dom().finite(),
            r == self.spec_entries().len(),
    {
        broadcast use vstd::std_specs::hash::group_hash_axioms;

        self.probabilities.len()
    }

    /// Whether there are no entries.
    pub fn is_empty(&self) -> (r: bool)
        ensures
            self.spec_entries().dom().finite(),
            r == (self.spec_entries().len() == 0),
    {
        broadcast use vstd::std_specs::hash::group_hash_axioms;

        self.probabilities.is_empty()
    }

    /// Whether there is an entry for `note_id`.
    pub fn contains(&self, note_id: &u128) -> (r: bool)
        ensures
            r == self.spec_entries().contains_key(*note_id),
    {
        broadcast use vstd::std_specs::hash::group_hash_axioms;

        self.probabilities.contains_key(note_id)
    }
}

} // verus!
