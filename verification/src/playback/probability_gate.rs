//! Probability gating between scheduler events and playback events.
//!
//! A NoteOn of a note with a probability entry passes with that chance; a
//! NoteOff of such a note passes only when a NoteOn of the same note was
//! accepted before it and not yet closed, so a rejected NoteOn never leaves
//! a dangling NoteOff. Notes without an entry always pass.
use crate::playback::mapper::{map_scheduled_event, playback_event_of};
use crate::playback::playback_event::PlaybackEvent;
use crate::playback::probability::{Probabilities, MAX_CHANCE};
use crate::scheduler::enums::NoteState;
use crate::scheduler::scheduled_event::ScheduledEvent;
use rand::RngExt;
use std::collections::HashSet;
use vstd::prelude::*;

verus! {

/// Calls `rand::rng()` and `RngExt::random_range(0..upper)` on it. The
/// contract claims what the rand documentation states of every outcome:
/// the value lies in the half-open range. Which value comes back is
/// random and not stated. `random_range` panics on an empty range, which
/// `requires` rules out; `rand::rng()` panics only when the operating
/// system's random source fails at first seeding, which no argument
/// decides and no clause states.
#[verifier::external_body]
pub(crate) fn random_below(upper: u8) -> (r: u8)
    requires
        upper > 0,
    ensures
        r < upper,
{
    rand::rng().random_range(0..upper)
}

/// Whether a NoteOn outcome (`accepted`) is possible for a note whose
/// probability entry has chance `chance` (`None`: no entry): without an
/// entry the note passes, at chance 0 it never passes, at 100 or more it
/// always passes, and in between either outcome is possible.
pub open spec fn note_on_outcome_possible(chance: Option<u8>, accepted: bool) -> bool {
    match chance {
        None => accepted,
        Some(c) => if c == 0 {
            !accepted
        } else if c >= MAX_CHANCE {
            accepted
        } else {
            true
        },
    }
}

/// The chance of the entry for `note_id`, if there is one.
pub open spec fn chance_of(probabilities: Map<u128, crate::playback::probability::Probability>, note_id: u128) -> Option<u8> {
    if probabilities.contains_key(note_id) {
        Some(probabilities[note_id].chance)
    } else {
        None
    }
}

/// Whether a roll of `chance` percent passes with the uniform draw `draw`
/// (below 100): a chance of 0 never passes, 100 or more always passes, and
/// in between the roll passes when the draw is below the chance.
pub open spec fn roll_passes(chance: u8, draw: u8) -> bool {
    chance >= MAX_CHANCE || (chance > 0 && draw < chance)
}

/// Whether a NoteOn is accepted with the draw `draw` when its note's entry
/// has chance `chance` (`None`: no entry, and the NoteOn passes).
pub open spec fn note_on_accepted_with(chance: Option<u8>, draw: u8) -> bool {
    match chance {
        None => true,
        Some(c) => roll_passes(c, draw),
    }
}

/// One gating step: the set of notes with an accepted, still open
/// NoteOn after `event`, and what passes. `has_entry` says whether the
/// note has a probability entry; `on_accepted` is the outcome of a NoteOn.
pub open spec fn gate_step(
    accepted_notes: Set<u128>,
    event: ScheduledEvent,
    has_entry: bool,
    on_accepted: bool,
) -> (Set<u128>, Option<PlaybackEvent>) {
    let id = event.note.spec_id();
    match event.state {
        NoteState::On => if on_accepted {
            (accepted_notes.insert(id), Some(playback_event_of(event)))
        } else {
            (accepted_notes.remove(id), None)
        },
        NoteState::Off => if !has_entry {
            (accepted_notes, Some(playback_event_of(event)))
        } else if accepted_notes.contains(id) {
            (accepted_notes.remove(id), Some(playback_event_of(event)))
        } else {
            (accepted_notes, None)
        },
    }
}

/// `outcomes` holds one possible NoteOn outcome per event.
pub open spec fn outcomes_possible(
    events: Seq<ScheduledEvent>,
    probabilities: Map<u128, crate::playback::probability::Probability>,
    outcomes: Seq<bool>,
) -> bool {
    &&& outcomes.len() == events.len()
    &&& forall|i: int|
        0 <= i < events.len() ==> note_on_outcome_possible(
            chance_of(probabilities, events[i].note.spec_id()),
            #[trigger] outcomes[i],
        )
}

/// Gating run over `events` in order with the NoteOn outcomes
/// `outcomes`: the open notes afterwards and the events that pass, in
/// order.
pub open spec fn gate_run(
    accepted_notes: Set<u128>,
    events: Seq<ScheduledEvent>,
    probabilities: Map<u128, crate::playback::probability::Probability>,
    outcomes: Seq<bool>,
) -> (Set<u128>, Seq<PlaybackEvent>)
    decreases events.len(),
{
    if events.len() == 0 {
        (accepted_notes, Seq::empty())
    } else {
        let before = gate_run(
            accepted_notes,
            events.drop_last(),
            probabilities,
            outcomes.drop_last(),
        );
        let e = events.last();
        let step = gate_step(
            before.0,
            e,
            probabilities.contains_key(e.note.spec_id()),
            outcomes.last(),
        );
        (
            step.0,
            match step.1 {
                Some(p) => before.1.push(p),
                None => before.1,
            },
        )
    }
}

/// Gating stage that accepts or rejects note occurrences.
pub struct ProbabilityGate {
    accepted_notes: HashSet<u128>,
}

impl ProbabilityGate {
    /// Notes whose last NoteOn was accepted and not yet closed by a NoteOff.
    pub closed spec fn spec_accepted_notes(&self) -> Set<u128> {
        self.accepted_notes@
    }

    /// A gate with no open notes.
    pub fn new() -> (g: Self)
        ensures
            g.spec_accepted_notes() == Set::<u128>::empty(),
    {
        Self { accepted_notes: HashSet::new() }
    }

    /// Forgets every open note.
    pub fn clear(&mut self)
        ensures
            final(self).spec_accepted_notes() == Set::<u128>::empty(),
    {
        self.accepted_notes.clear();
    }

    /// Gates one scheduler event. A NoteOn is decided by a roll of the
    /// note's chance (passing without an entry); a NoteOff passes without
    /// an entry, and otherwise only if it closes an accepted NoteOn. The
    /// roll draws a uniform number below 100 (only for a chance strictly
    /// between 0 and 100) and gates as `apply_with_draw` does with it.
    pub fn apply(&mut self, event: &ScheduledEvent<'_>, probabilities: &Probabilities) -> (r:
        Option<PlaybackEvent>)
        ensures
            exists|draw: u8|
                {
                    &&& draw < MAX_CHANCE
                    &&& (final(self).spec_accepted_notes(), r) == #[trigger] gate_step(
                        old(self).spec_accepted_notes(),
                        *event,
                        probabilities.spec_entries().contains_key(event.note.spec_id()),
                        note_on_accepted_with(
                            chance_of(probabilities.spec_entries(), event.note.spec_id()),
                            draw,
                        ),
                    )
                },
            exists|on_accepted: bool|
                {
                    &&& note_on_outcome_possible(
                        chance_of(probabilities.spec_entries(), event.note.spec_id()),
                        on_accepted,
                    )
                    &&& (final(self).spec_accepted_notes(), r) == gate_step(
                        old(self).spec_accepted_notes(),
                        *event,
                        probabilities.spec_entries().contains_key(event.note.spec_id()),
                        on_accepted,
                    )
                },
    {
        let note_id = *event.note().id();
        let draw = match event.state() {
            NoteState::On => match probabilities.get(&note_id) {
                Some(probability) => {
                    let chance = probability.chance();
                    if chance == 0 || chance >= MAX_CHANCE {
                        0
                    } else {
                        random_below(MAX_CHANCE)
                    }
                },
                None => 0,
            },
            NoteState::Off => 0,
        };
        let ghost before = self.spec_accepted_notes();
        let r = self.apply_with_draw(event, probabilities, draw);
        let ghost chance = chance_of(probabilities.spec_entries(), note_id);
        assert(note_on_outcome_possible(chance, note_on_accepted_with(chance, draw)));
        assert((self.spec_accepted_notes(), r) == gate_step(
            before,
            *event,
            probabilities.spec_entries().contains_key(note_id),
            note_on_accepted_with(chance, draw),
        ));
        r
    }

    /// Gates one scheduler event with the uniform draw `draw` (below 100):
    /// a NoteOn passes without an entry, and otherwise when a roll of its
    /// chance passes with that draw (`roll_passes`); a NoteOff passes
    /// without an entry, and otherwise only if it closes an accepted NoteOn.
    pub fn apply_with_draw(
        &mut self,
        event: &ScheduledEvent<'_>,
        probabilities: &Probabilities,
        draw: u8,
    ) -> (r: Option<PlaybackEvent>)
        requires
            draw < MAX_CHANCE,
        ensures
            (final(self).spec_accepted_notes(), r) == gate_step(
                old(self).spec_accepted_notes(),
                *event,
                probabilities.spec_entries().contains_key(event.note.spec_id()),
                note_on_accepted_with(
                    chance_of(probabilities.spec_entries(), event.note.spec_id()),
                    draw,
                ),
            ),
    {
        let note_id = *event.note().id();
        match event.state() {
            NoteState::On => {
                let accepted = match probabilities.get(&note_id) {
                    Some(probability) => Self::roll_with_draw(probability.chance(), draw),
                    None => true,
                };
                self.handle_note_on(event, note_id, accepted)
            },
            NoteState::Off => {
                let ghost before = self.spec_accepted_notes();
                let r = self.handle_note_off(event, probabilities, note_id);
                let ghost accepted = note_on_accepted_with(
                    chance_of(probabilities.spec_entries(), note_id),
                    draw,
                );
                assert(gate_step(
                    before,
                    *event,
                    probabilities.spec_entries().contains_key(note_id),
                    accepted,
                ) == gate_step(
                    before,
                    *event,
                    probabilities.spec_entries().contains_key(note_id),
                    true,
                ));
                r
            },
        }
    }

    fn handle_note_off(
        &mut self,
        event: &ScheduledEvent<'_>,
        probabilities: &Probabilities,
        note_id: u128,
    ) -> (r: Option<PlaybackEvent>)
        requires
            event.state == NoteState::Off,
            note_id == event.note.spec_id(),
        ensures
            (final(self).spec_accepted_notes(), r) == gate_step(
                old(self).spec_accepted_notes(),
                *event,
                probabilities.spec_entries().contains_key(note_id),
                true,
            ),
    {
        broadcast use vstd::std_specs::hash::group_hash_axioms;

        if probabilities.get(&note_id).is_none() {
            return Some(map_scheduled_event(event));
        }
        if self.accepted_notes.remove(&note_id) {
            Some(map_scheduled_event(event))
        } else {
            None
        }
    }

    fn handle_note_on(&mut self, event: &ScheduledEvent<'_>, note_id: u128, accepted: bool) -> (r:
        Option<PlaybackEvent>)
        requires
            event.state == NoteState::On,
            note_id == event.note.spec_id(),
        ensures
            (final(self).spec_accepted_notes(), r) == gate_step(
                old(self).spec_accepted_notes(),
                *event,
                true,
                accepted,
            ),
    {
        broadcast use vstd::std_specs::hash::group_hash_axioms;

        if accepted {
            self.accepted_notes.insert(note_id);
            Some(map_scheduled_event(event))
        } else {
            self.accepted_notes.remove(&note_id);
            None
        }
    }

    /// Rolls a chance in percent: 0 never passes, 100 or more always
    /// passes, and in between a uniform draw below 100 decides, as
    /// `roll_with_draw` does with it.
    pub fn roll(chance: u8) -> (r: bool)
        ensures
            chance == 0 ==> !r,
            chance >= MAX_CHANCE ==> r,
            exists|draw: u8| draw < MAX_CHANCE && r == #[trigger] roll_passes(chance, draw),
    {
        let draw = if chance == 0 || chance >= MAX_CHANCE {
            0
        } else {
            random_below(MAX_CHANCE)
        };
        let r = Self::roll_with_draw(chance, draw);
        assert(r == roll_passes(chance, draw));
        r
    }

    /// Rolls a chance in percent with the uniform draw `draw` (below 100):
    /// 0 never passes, 100 or more always passes, and in between the roll
    /// passes when the draw is below the chance.
    pub fn roll_with_draw(chance: u8, draw: u8) -> (r: bool)
        requires
            draw < MAX_CHANCE,
        ensures
            r == roll_passes(chance, draw),
    {
        if chance == 0 {
            false
        } else if chance >= MAX_CHANCE {
            true
        } else {
            draw < chance
        }
    }
}

/// Law: a note whose NoteOn was rejected emits no NoteOff afterwards; the
/// matching NoteOff of a note with a probability entry is swallowed.
pub proof fn law_rejected_note_on_silences_note_off(
    accepted_notes: Set<u128>,
    on: ScheduledEvent,
    off: ScheduledEvent,
)
    requires
        on.state == NoteState::On,
        off.state == NoteState::Off,
        on.note.spec_id() == off.note.spec_id(),
    ensures
        gate_step(accepted_notes, on, true, false).1 is None,
        gate_step(gate_step(accepted_notes, on, true, false).0, off, true, true).1 is None,
{
}

/// Law: over a run of events, once a NoteOn of a note with a probability
/// entry is rejected, nothing of that note passes as long as no later NoteOn
/// of it comes: what the run lets through after the rejection holds no
/// event of that note, and the note is not open at the end.
pub proof fn law_rejected_note_on_silences_later_note_offs(
    accepted_notes: Set<u128>,
    events: Seq<ScheduledEvent>,
    probabilities: Map<u128, crate::playback::probability::Probability>,
    outcomes: Seq<bool>,
    k: int,
)
    requires
        0 <= k < events.len(),
        outcomes.len() == events.len(),
        probabilities.contains_key(events[k].note.spec_id()),
        events[k].state == NoteState::On,
        !outcomes[k],
        forall|j: int|
            k < j < events.len() && #[trigger] events[j].note.spec_id() == events[k].note.spec_id()
                ==> events[j].state == NoteState::Off,
    ensures
        ({
            let n = events[k].note.spec_id();
            let upto = gate_run(accepted_notes, events.take(k + 1), probabilities, outcomes.take(k + 1));
            let all = gate_run(accepted_notes, events, probabilities, outcomes);
            &&& !all.0.contains(n)
            &&& upto.1.len() <= all.1.len()
            &&& all.1.take(upto.1.len() as int) == upto.1
            &&& forall|i: int| upto.1.len() <= i < all.1.len() ==> (#[trigger] all.1[i]).note_id != n
        }),
    decreases events.len(),
{
    let n = events[k].note.spec_id();
    if events.len() == k + 1 {
        assert(events.take(k + 1) == events);
        assert(outcomes.take(k + 1) == outcomes);
        assert(events.last() == events[k]);
    } else {
        let init = events.drop_last();
        let init_outcomes = outcomes.drop_last();
        assert forall|j: int|
            k < j < init.len() && #[trigger] init[j].note.spec_id() == init[k].note.spec_id()
                implies init[j].state == NoteState::Off by {
            assert(init[j] == events[j]);
        }
        law_rejected_note_on_silences_later_note_offs(
            accepted_notes,
            init,
            probabilities,
            init_outcomes,
            k,
        );
        assert(init.take(k + 1) == events.take(k + 1));
        assert(init_outcomes.take(k + 1) == outcomes.take(k + 1));
        let e = events.last();
        assert(e == events[events.len() - 1]);
        if e.note.spec_id() == n {
            assert(e.state == NoteState::Off);
        }
    }
}

/// Law: gating two runs of events one after the other, the second starting
/// from the notes the first left open, is gating their concatenation: the
/// same notes are left open and the passed events are those of the first
/// run followed by those of the second.
pub proof fn law_gating_runs_compose(
    accepted_notes: Set<u128>,
    first: Seq<ScheduledEvent>,
    second: Seq<ScheduledEvent>,
    probabilities: Map<u128, crate::playback::probability::Probability>,
    first_outcomes: Seq<bool>,
    second_outcomes: Seq<bool>,
)
    requires
        first_outcomes.len() == first.len(),
        second_outcomes.len() == second.len(),
    ensures
        ({
            let one = gate_run(accepted_notes, first, probabilities, first_outcomes);
            let two = gate_run(one.0, second, probabilities, second_outcomes);
            gate_run(accepted_notes, first + second, probabilities, first_outcomes + second_outcomes)
                == (two.0, one.1 + two.1)
        }),
    decreases second.len(),
{
    let one = gate_run(accepted_notes, first, probabilities, first_outcomes);
    if second.len() == 0 {
        assert(first + second == first);
        assert(first_outcomes + second_outcomes == first_outcomes);
        assert(one.1 + Seq::<PlaybackEvent>::empty() == one.1);
    } else {
        law_gating_runs_compose(
            accepted_notes,
            first,
            second.drop_last(),
            probabilities,
            first_outcomes,
            second_outcomes.drop_last(),
        );
        assert((first + second).drop_last() == first + second.drop_last());
        assert((first_outcomes + second_outcomes).drop_last() == first_outcomes
            + second_outcomes.drop_last());
        assert((first + second).last() == second.last());
        assert((first_outcomes + second_outcomes).last() == second_outcomes.last());
        let before = gate_run(one.0, second.drop_last(), probabilities, second_outcomes.drop_last());
        let e = second.last();
        let step = gate_step(
            before.0,
            e,
            probabilities.contains_key(e.note.spec_id()),
            second_outcomes.last(),
        );
        if let Some(p) = step.1 {
            assert(one.1 + before.1.push(p) == (one.1 + before.1).push(p));
        }
    }
}

/// Law: an accepted NoteOn of a note with a probability entry lets exactly
/// one matching NoteOff through; a second NoteOff is swallowed.
pub proof fn law_accepted_note_on_releases_one_note_off(
    accepted_notes: Set<u128>,
    on: ScheduledEvent,
    off: ScheduledEvent,
)
    requires
        on.state == NoteState::On,
        off.state == NoteState::Off,
        on.note.spec_id() == off.note.spec_id(),
    ensures
        ({
            let after_on = gate_step(accepted_notes, on, true, true);
            let after_off = gate_step(after_on.0, off, true, true);
            let after_second_off = gate_step(after_off.0, off, true, true);
            &&& after_on.1 == Some(playback_event_of(on))
            &&& after_off.1 == Some(playback_event_of(off))
            &&& after_second_off.1 is None
        }),
{
}

/// Law: events of a note without a probability entry always pass.
pub proof fn law_notes_without_entry_always_pass(
    accepted_notes: Set<u128>,
    event: ScheduledEvent,
    on_accepted: bool,
)
    requires
        note_on_outcome_possible(None, on_accepted),
    ensures
        gate_step(accepted_notes, event, false, on_accepted).1 == Some(playback_event_of(event)),
{
}

/// Law: of the 100 equally likely draws below 100, a NoteOn whose note has
/// chance `c` is accepted by exactly `min(c, 100)` (the draws below the
/// chance), and by all 100 when the note has no entry. Under a uniform draw
/// it therefore passes with probability `c / 100`, and for `0 < c < 100`
/// some draw accepts it and some draw rejects it.
pub proof fn law_note_on_accepted_by_chance_percent_of_draws(chance: Option<u8>)
    ensures
        ({
            let passing = match chance {
                None => MAX_CHANCE,
                Some(c) => if c >= MAX_CHANCE { MAX_CHANCE } else { c },
            };
            let accepting = Set::new(|d: u8| d < MAX_CHANCE && note_on_accepted_with(chance, d));
            &&& accepting == Set::<u8>::range(0, passing)
            &&& accepting.finite()
            &&& accepting.len() == passing
            &&& Set::<u8>::range(0, MAX_CHANCE).len() == MAX_CHANCE
        }),
{
    broadcast use vstd::set_lib::range_set_properties;

    let passing = match chance {
        None => MAX_CHANCE,
        Some(c) => if c >= MAX_CHANCE { MAX_CHANCE } else { c },
    };
    let accepting = Set::new(|d: u8| d < MAX_CHANCE && note_on_accepted_with(chance, d));
    assert(accepting =~= Set::<u8>::range(0, passing));
    assert(Set::<u8>::range(0, passing).len() == passing);
    assert(Set::<u8>::range(0, MAX_CHANCE).len() == MAX_CHANCE);
}

} // verus!
