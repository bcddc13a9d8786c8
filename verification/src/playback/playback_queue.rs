//! Queue of timed playback events, kept in deadline order, from which due
//! events are drained block by block.
use crate::playback::enums::PlaybackEventKind;
use crate::playback::timed_playback_event::TimedPlaybackEvent;
use crate::sorting::{sort_by_key, sorted_by_key, ties_of, KeyOrder};
use std::collections::VecDeque;
use vstd::prelude::*;

verus! {

/// Rank of an event kind among events with the same deadline: NoteOff
/// first, then NoteOn, then everything else.
pub open spec fn kind_rank(kind: PlaybackEventKind) -> u8 {
    match kind {
        PlaybackEventKind::NoteOff { .. } => 0,
        PlaybackEventKind::NoteOn { .. } => 1,
        _ => 2,
    }
}

/// Rank of an event kind among events with the same deadline.
pub fn event_kind_priority(kind: PlaybackEventKind) -> (r: u8)
    ensures
        r == kind_rank(kind),
{
    match kind {
        PlaybackEventKind::NoteOff { .. } => 0,
        PlaybackEventKind::NoteOn { .. } => 1,
        _ => 2,
    }
}

/// Timed events are ordered by deadline, then NoteOff before NoteOn before
/// other kinds, then placement, note identity and loop iteration.
impl KeyOrder for TimedPlaybackEvent {
    open spec fn key_le(self, other: Self) -> bool {
        ||| self.sample_position < other.sample_position
        ||| self.sample_position == other.sample_position && kind_rank(self.kind) < kind_rank(
            other.kind,
        )
        ||| self.sample_position == other.sample_position && kind_rank(self.kind) == kind_rank(
            other.kind,
        ) && self.occurrence_key.placement_id < other.occurrence_key.placement_id
        ||| self.sample_position == other.sample_position && kind_rank(self.kind) == kind_rank(
            other.kind,
        ) && self.occurrence_key.placement_id == other.occurrence_key.placement_id
            && self.note_id < other.note_id
        ||| self.sample_position == other.sample_position && kind_rank(self.kind) == kind_rank(
            other.kind,
        ) && self.occurrence_key.placement_id == other.occurrence_key.placement_id
            && self.note_id == other.note_id && self.occurrence_key.loop_iteration
            <= other.occurrence_key.loop_iteration
    }

    proof fn lemma_key_le_total(a: Self, b: Self) {
    }

    proof fn lemma_key_le_transitive(a: Self, b: Self, c: Self) {
    }

    fn precedes_or_ties(&self, other: &Self) -> (r: bool) {
        if self.sample_position != other.sample_position {
            return self.sample_position < other.sample_position;
        }
        let a = event_kind_priority(self.kind);
        let b = event_kind_priority(other.kind);
        if a != b {
            return a < b;
        }
        if self.occurrence_key.placement_id != other.occurrence_key.placement_id {
            return self.occurrence_key.placement_id < other.occurrence_key.placement_id;
        }
        if self.note_id != other.note_id {
            return self.note_id < other.note_id;
        }
        self.occurrence_key.loop_iteration <= other.occurrence_key.loop_iteration
    }
}

/// Timed playback events in deadline order.
#[derive(Debug, Default)]
pub struct PlaybackQueue {
    events: VecDeque<TimedPlaybackEvent>,
}

impl PlaybackQueue {
    #[verifier::type_invariant]
    spec fn inv(&self) -> bool {
        sorted_by_key(self.events@)
    }

    /// The queued events, in order.
    pub closed spec fn spec_events(&self) -> Seq<TimedPlaybackEvent> {
        self.events@
    }

    /// An empty queue.
    pub fn new() -> (q: Self)
        ensures
            q.spec_events() == Seq::<TimedPlaybackEvent>::empty(),
    {
        Self { events: VecDeque::new() }
    }

    /// Adds a batch of events; the queue holds the old and the new events,
    /// each as often as before, in order. Events that tie keep their order:
    /// queued ones first, then the batch's in the batch's order.
    pub fn push_batch(&mut self, events: Vec<TimedPlaybackEvent>)
        ensures
            sorted_by_key(final(self).spec_events()),
            final(self).spec_events().to_multiset() == old(self).spec_events().to_multiset().add(
                events@.to_multiset(),
            ),
            forall|x: TimedPlaybackEvent| #[trigger]
                ties_of(final(self).spec_events(), x) == ties_of(
                    old(self).spec_events() + events@,
                    x,
                ),
    {
        broadcast use vstd::seq_lib::group_to_multiset_ensures;

        let mut queued = VecDeque::new();
        std::mem::swap(&mut queued, &mut self.events);
        let ghost old_events = queued@;
        let mut all: Vec<TimedPlaybackEvent> = Vec::new();
        while queued.len() > 0
            invariant
                all@ + queued@ == old_events,
            decreases queued@.len(),
        {
            let ghost before = queued@;
            let e = queued.pop_front().unwrap();
            assert(before == seq![e] + queued@);
            all.push(e);
        }
        assert(all@ == old_events);
        let mut batch = events;
        all.append(&mut batch);
        assert(all@ == old_events + events@);
        proof {
            vstd::seq_lib::lemma_multiset_commutative(old_events, events@);
        }
        let sorted = sort_by_key(all);
        let mut result: VecDeque<TimedPlaybackEvent> = VecDeque::new();
        let n = sorted.len();
        for i in 0..n
            invariant
                n == sorted@.len(),
                result@ == sorted@.take(i as int),
        {
            result.push_back(sorted[i]);
            assert(sorted@.take(i + 1) == sorted@.take(i as int).push(sorted@[i as int]));
        }
        assert(sorted@.take(n as int) == sorted@);
        self.events = result;
    }

    /// Removes and returns the events whose deadline is at or before
    /// `block_end_sample`: a prefix of the queue, since it is in order.
    pub fn drain_due(&mut self, block_end_sample: u64) -> (due: Vec<TimedPlaybackEvent>)
        ensures
            sorted_by_key(due@),
            due@.len() <= old(self).spec_events().len(),
            due@ == old(self).spec_events().take(due@.len() as int),
            final(self).spec_events() == old(self).spec_events().skip(due@.len() as int),
            forall|i: int|
                0 <= i < due@.len() ==> #[trigger] due@[i].sample_position <= block_end_sample,
            forall|i: int|
                0 <= i < final(self).spec_events().len() ==> (#[trigger] final(self).spec_events()[i]).sample_position
                    > block_end_sample,
    {
        proof {
            use_type_invariant(&*self);
        }
        let mut queued = VecDeque::new();
        std::mem::swap(&mut queued, &mut self.events);
        let ghost old_events = queued@;
        let mut due: Vec<TimedPlaybackEvent> = Vec::new();
        while queued.len() > 0 && queued[0].sample_position <= block_end_sample
            invariant
                sorted_by_key(old_events),
                due@.len() <= old_events.len(),
                due@ == old_events.take(due@.len() as int),
                queued@ == old_events.skip(due@.len() as int),
                forall|i: int|
                    0 <= i < due@.len() ==> #[trigger] due@[i].sample_position <= block_end_sample,
            decreases queued@.len(),
        {
            let e = queued.pop_front().unwrap();
            due.push(e);
            assert(old_events.take(due@.len() as int) == old_events.take(due@.len() - 1).push(e));
        }
        proof {
            let k = due@.len() as int;
            assert forall|i: int| 0 <= i < queued@.len() implies #[trigger] queued@[i].sample_position
                > block_end_sample by {
                assert(queued@[0].sample_position > block_end_sample);
                if i > 0 {
                    assert(old_events[k].key_le(old_events[k + i]));
                    assert(queued@[i] == old_events[k + i]);
                }
            }
            assert(sorted_by_key(due@)) by {
                assert forall|a: int, b: int| 0 <= a < b < due@.len() implies #[trigger] due@[a].key_le(
                    #[trigger] due@[b],
                ) by {
                    assert(due@[a] == old_events[a] && due@[b] == old_events[b]);
                }
            }
            assert(sorted_by_key(queued@)) by {
                assert forall|a: int, b: int| 0 <= a < b < queued@.len() implies #[trigger] queued@[a].key_le(
                    #[trigger] queued@[b],
                ) by {
                    assert(queued@[a] == old_events[k + a] && queued@[b] == old_events[k + b]);
                }
            }
        }
        self.events = queued;
        due
    }

    /// Removes every queued event.
    pub fn clear(&mut self)
        ensures
            final(self).spec_events() == Seq::<TimedPlaybackEvent>::empty(),
    {
        self.events = VecDeque::new();
    }

    /// Whether nothing is queued.
    pub fn is_empty(&self) -> (r: bool)
        ensures
            r == (self.spec_events().len() == 0),
    {
        self.events.len() == 0
    }
}

} // verus!
