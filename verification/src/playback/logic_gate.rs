//! Stateless gate between probabilities and playback events.
use crate::playback::mapper::{map_scheduled_event, playback_event_of};
use crate::playback::playback_event::PlaybackEvent;
use crate::playback::probability::{Probabilities, Probability, MAX_CHANCE};
use crate::playback::probability_gate::{chance_of, note_on_outcome_possible, random_below};
use crate::scheduler::enums::NoteState;
use crate::scheduler::scheduled_event::ScheduledEvent;
use vstd::prelude::*;

verus! {

/// What filtering `event` gives with the uniform draw `draw` (at most
/// 100): a NoteOn of a note with a probability entry passes at a chance of
/// 100, never at 0, and in between when the draw is below the chance; a
/// NoteOff, and any event of a note without an entry, always passes.
pub open spec fn filter_outcome(
    event: ScheduledEvent,
    entries: Map<u128, Probability>,
    draw: u8,
) -> Option<PlaybackEvent> {
    if event.state == NoteState::On && entries.contains_key(event.note.spec_id()) {
        let chance = entries[event.note.spec_id()].chance;
        if chance == MAX_CHANCE {
            Some(playback_event_of(event))
        } else if chance == 0 {
            None
        } else if draw < chance {
            Some(playback_event_of(event))
        } else {
            None
        }
    } else {
        Some(playback_event_of(event))
    }
}

/// Maps `event` to a playback event, dropping a NoteOn by chance: with a
/// probability entry of 100 it always passes, of 0 never, and in between a
/// uniform draw in `0..=100` below the chance lets it pass (the draw is made
/// only then; the result is `filter_event_with_draw` with it). NoteOff
/// events and notes without an entry always pass.
pub fn filter_event(event: &ScheduledEvent, probabilities: &Probabilities) -> (r: Option<
    PlaybackEvent,
>)
    ensures
        exists|draw: u8|
            draw <= MAX_CHANCE && r == #[trigger] filter_outcome(
                *event,
                probabilities.spec_entries(),
                draw,
            ),
        r is Some ==> r == Some(playback_event_of(*event)),
        event.state == NoteState::Off ==> r is Some,
        event.state == NoteState::On ==> note_on_outcome_possible(
            chance_of(probabilities.spec_entries(), event.note.spec_id()),
            r is Some,
        ),
{
    let mut draw: u8 = 0;
    if event.state() == NoteState::On {
        if let Some(probability) = probabilities.get(event.note().id()) {
            let chance = probability.chance();
            if chance != MAX_CHANCE && chance != 0 {
                draw = random_below(MAX_CHANCE + 1);
            }
        }
    }
    let r = filter_event_with_draw(event, probabilities, draw);
    assert(r == filter_outcome(*event, probabilities.spec_entries(), draw));
    r
}

/// Filters `event` with the uniform draw `draw` (at most 100), as
/// `filter_outcome` describes.
pub fn filter_event_with_draw(event: &ScheduledEvent, probabilities: &Probabilities, draw: u8) -> (r:
    Option<PlaybackEvent>)
    requires
        draw <= MAX_CHANCE,
    ensures
        r == filter_outcome(*event, probabilities.spec_entries(), draw),
{
    if event.state() == NoteState::On {
        let note_id = event.note().id();
        if let Some(probability) = probabilities.get(note_id) {
            let chance = probability.chance();
            if chance == MAX_CHANCE {
                return Some(map_scheduled_event(event));
            } else if chance == 0 {
                return None;
            } else if draw < chance {
                return Some(map_scheduled_event(event));
            } else {
                return None;
            }
        }
    }
    Some(map_scheduled_event(event))
}

/// Law: of the 101 equally likely draws in `0..=100`, a NoteOn whose note
/// has chance `c` passes the filter with exactly `c` of them when
/// `0 < c < 100` (the draws below the chance), with none at 0 and with all
/// at 100 or more; any other event passes with all of them. Under a uniform draw a
/// NoteOn of chance `0 < c < 100` therefore passes with probability
/// `c / 101`, and some draw lets it through while another drops it.
pub proof fn law_filter_passes_by_chance_of_draws(event: ScheduledEvent, entries: Map<u128, Probability>)
    ensures
        ({
            let passing: u8 = if event.state == NoteState::On && entries.contains_key(event.note.spec_id()) {
                let c = entries[event.note.spec_id()].chance;
                if c >= MAX_CHANCE { 101u8 } else { c }
            } else {
                101u8
            };
            let through = Set::new(|d: u8| d <= MAX_CHANCE && filter_outcome(event, entries, d) is Some);
            &&& through == Set::<u8>::range(0, passing)
            &&& through.finite()
            &&& through.len() == passing
            &&& Set::<u8>::range(0, 101u8).len() == 101
        }),
{
    broadcast use vstd::set_lib::range_set_properties;

    let passing: u8 = if event.state == NoteState::On && entries.contains_key(event.note.spec_id()) {
        let c = entries[event.note.spec_id()].chance;
        if c >= MAX_CHANCE { 101u8 } else { c }
    } else {
        101u8
    };
    let through = Set::new(|d: u8| d <= MAX_CHANCE && filter_outcome(event, entries, d) is Some);
    assert(through =~= Set::<u8>::range(0, passing));
    assert(Set::<u8>::range(0, passing).len() == passing);
    assert(Set::<u8>::range(0, 101u8).len() == 101);
}

} // verus!
