//! The playback pipeline: scheduling windows, probability gating, active
//! note tracking, and the committed horizon that guards edits.
//!
//! Once a window has been scheduled, the music before its end has been
//! handed out; an edit that starts before that committed horizon would
//! change what is already playing, so it is refused.
use crate::clips::arrangement_view::{is_arrangement_routing, ArrangementView};
use crate::clips::clip_router::RoutedNote;
use crate::playback::active_notes::{after_tracking_all, is_panic_offs, ActiveNote, ActiveNotes};
use crate::playback::playback_event::PlaybackEvent;
use crate::playback::probability::Probabilities;
use crate::playback::probability_gate::{gate_run, outcomes_possible, ProbabilityGate};
use crate::playback::timed_playback_event::{timed_event_of, TimedPlaybackEvent};
use crate::scheduler::enums::SchedulerError;
use crate::scheduler::occurrence::NoteOccurrenceKey;
use crate::scheduler::scheduled_event::ScheduledEvent;
use crate::scheduler::scheduler::{
    window_error, window_events, window_first_tick, window_start_of, Scheduler,
    DEFAULT_LOOKAHEAD,
};
use crate::sorting::sorted_by_key;
use crate::tempo::Tempo;
use crate::transport::transport::Transport;
use vstd::prelude::*;

verus! {

/// Whether an edit may start at a given beat.
#[derive(Debug, Clone, Copy, PartialEq, Eq, Structural)]
pub enum MutationDecision {
    Allowed,
    Rejected { committed_horizon_beat: i64 },
}

/// A named edit and the beat (ticks) it starts at.
#[derive(Debug, Clone, PartialEq)]
pub struct MutationBatchItem {
    pub label: String,
    pub from_beat: i64,
}

/// Named edits to be checked together.
#[derive(Debug, Clone, Default, PartialEq)]
pub struct MutationBatch {
    items: Vec<MutationBatchItem>,
}

/// Whether a named batch may be applied; a refusal names the first edit
/// that starts before the committed horizon.
#[derive(Debug, Clone, PartialEq)]
pub enum MutationBatchDecision {
    Allowed,
    Rejected { label: String, from_beat: i64, committed_horizon_beat: i64 },
}

/// Why the pipeline could not advance.
#[derive(Debug, Clone, Copy, PartialEq, Eq, Structural)]
pub enum PlaybackPipelineError {
    Scheduler(SchedulerError),
}

/// The decision for an edit from `from_beat` under the committed horizon
/// `horizon`: with no horizon every edit is allowed; otherwise an edit from
/// a negative beat or from before the horizon is refused.
pub open spec fn decision_for(horizon: Option<i64>, from_beat: i64) -> MutationDecision {
    match horizon {
        None => MutationDecision::Allowed,
        Some(h) => if from_beat < 0 || from_beat < h {
            MutationDecision::Rejected { committed_horizon_beat: h }
        } else {
            MutationDecision::Allowed
        },
    }
}

/// Every edit of the batch is allowed.
pub open spec fn all_allowed(horizon: Option<i64>, from_beats: Seq<i64>) -> bool {
    forall|i: int|
        0 <= i < from_beats.len() ==> #[trigger] decision_for(horizon, from_beats[i])
            == MutationDecision::Allowed
}

/// The decision for a batch: allowed when every edit is; otherwise the
/// refusal of an edit that is refused (all refusals name the same horizon).
pub open spec fn batch_decision_for(horizon: Option<i64>, from_beats: Seq<i64>) -> MutationDecision {
    if all_allowed(horizon, from_beats) {
        MutationDecision::Allowed
    } else {
        decision_for(
            horizon,
            from_beats[choose|i: int|
                0 <= i < from_beats.len() && #[trigger] decision_for(horizon, from_beats[i])
                    != MutationDecision::Allowed],
        )
    }
}

/// `i` is the first item of `items` whose edit is refused.
pub open spec fn is_first_refused(horizon: Option<i64>, items: Seq<MutationBatchItem>, i: int) -> bool {
    &&& 0 <= i < items.len()
    &&& decision_for(horizon, items[i].from_beat) != MutationDecision::Allowed
    &&& forall|j: int|
        0 <= j < i ==> #[trigger] decision_for(horizon, items[j].from_beat)
            == MutationDecision::Allowed
}

/// The start beats of the items.
pub open spec fn item_beats(items: Seq<MutationBatchItem>) -> Seq<i64> {
    items.map_values(|item: MutationBatchItem| item.from_beat)
}

/// `d` is the decision for the named batch `items`: allowed when every
/// edit is, else a refusal that repeats the label and start beat of the
/// first refused item and the horizon.
pub open spec fn is_named_batch_decision(
    horizon: Option<i64>,
    items: Seq<MutationBatchItem>,
    d: MutationBatchDecision,
) -> bool {
    match d {
        MutationBatchDecision::Allowed => all_allowed(horizon, item_beats(items)),
        MutationBatchDecision::Rejected { label, from_beat, committed_horizon_beat } => exists|
            i: int,
        |
            #![trigger items[i]]
            {
                &&& is_first_refused(horizon, items, i)
                &&& label@ == items[i].label@
                &&& from_beat == items[i].from_beat
                &&& decision_for(horizon, from_beat) == (MutationDecision::Rejected {
                    committed_horizon_beat,
                })
            },
    }
}

/// The sample horizon after raising `existing` to `sample`.
pub open spec fn raised_sample(existing: Option<u64>, sample: u64) -> u64 {
    match existing {
        Some(e) => if e >= sample {
            e
        } else {
            sample
        },
        None => sample,
    }
}

/// The latest sample deadline among `events`, if any.
pub open spec fn max_sample_position(events: Seq<TimedPlaybackEvent>) -> Option<u64>
    decreases events.len(),
{
    if events.len() == 0 {
        None
    } else {
        Some(raised_sample(max_sample_position(events.drop_last()), events.last().sample_position))
    }
}

/// One pass of the pipeline over the ticks from `window_start` up to before
/// `window_end`: `routed` is how the arrangement routes its notes,
/// `scheduled` the window's note edges in event order, `outcomes` one
/// possible NoteOn outcome per edge, and gating, run over the edges from
/// the open notes `accepted_before`, lets `emitted` through and leaves
/// `accepted_after` open.
pub open spec fn is_window_pass<'a>(
    arrangement: ArrangementView<'a>,
    probabilities: Probabilities,
    window_start: int,
    window_end: int,
    accepted_before: Set<u128>,
    routed: Seq<RoutedNote<'a>>,
    scheduled: Seq<ScheduledEvent<'a>>,
    outcomes: Seq<bool>,
    accepted_after: Set<u128>,
    emitted: Seq<PlaybackEvent>,
) -> bool {
    &&& is_arrangement_routing(
        arrangement.spec_router(),
        arrangement.spec_notes(),
        arrangement.spec_clips(),
        arrangement.spec_placements(),
        routed,
    )
    &&& sorted_by_key(scheduled)
    &&& scheduled.to_multiset() == window_events(routed, window_start, window_end).to_multiset()
    &&& outcomes_possible(scheduled, probabilities.spec_entries(), outcomes)
    &&& gate_run(accepted_before, scheduled, probabilities.spec_entries(), outcomes) == (
        accepted_after,
        emitted,
    )
}

/// `after` and `r` are what advancing `before` over the arrangement at the
/// transport's position gives. The window runs from just after the
/// scheduler's cursor (from the transport's beat itself while rewinding or
/// before the first window) up to and including the transport's beat plus
/// the lookahead. An empty window hands out nothing
/// and only sets the committed horizon to the cursor; a refused window
/// changes nothing; otherwise the window's edges are gated, what passes is
/// handed out and tracked as sounding, and the committed horizon and the
/// cursor move to the window's end. The sample horizon is not spoken of.
pub open spec fn is_advance<'a>(
    before: PlaybackPipeline,
    after: PlaybackPipeline,
    arrangement: ArrangementView<'a>,
    transport: Transport,
    tempo: Tempo,
    probabilities: Probabilities,
    r: Result<Seq<PlaybackEvent>, PlaybackPipelineError>,
) -> bool {
    let current = transport.spec_beat_position(&tempo);
    let start = window_start_of(
        before.spec_scheduler().spec_cursor(),
        transport.spec_state(),
        current,
    );
    let end = current + before.spec_scheduler().spec_lookahead();
    if start == end {
        &&& r == Ok::<Seq<PlaybackEvent>, PlaybackPipelineError>(Seq::empty())
        &&& after.spec_scheduler() == before.spec_scheduler()
        &&& after.spec_accepted_notes() == before.spec_accepted_notes()
        &&& after.spec_active() == before.spec_active()
        &&& after.spec_committed_horizon_beat() == before.spec_scheduler().spec_cursor()
    } else if let Some(e) = window_error(start, end) {
        &&& r == Err::<Seq<PlaybackEvent>, PlaybackPipelineError>(
            PlaybackPipelineError::Scheduler(e),
        )
        &&& after.spec_scheduler() == before.spec_scheduler()
        &&& after.spec_accepted_notes() == before.spec_accepted_notes()
        &&& after.spec_active() == before.spec_active()
        &&& after.spec_committed_horizon_beat() == before.spec_committed_horizon_beat()
    } else {
        match r {
            Ok(emitted) => {
                &&& exists|
                    routed: Seq<RoutedNote<'a>>,
                    scheduled: Seq<ScheduledEvent<'a>>,
                    outcomes: Seq<bool>,
                |
                    #[trigger] is_window_pass(
                        arrangement,
                        probabilities,
                        window_first_tick(
                            before.spec_scheduler().spec_cursor(),
                            transport.spec_state(),
                            start,
                        ),
                        end + 1,
                        before.spec_accepted_notes(),
                        routed,
                        scheduled,
                        outcomes,
                        after.spec_accepted_notes(),
                        emitted,
                    )
                &&& after.spec_active() == after_tracking_all(before.spec_active(), emitted)
                &&& after.spec_scheduler().spec_cursor() == Some(end as i64)
                &&& after.spec_scheduler().spec_last_transport_beat() == Some(current)
                &&& after.spec_scheduler().spec_lookahead()
                    == before.spec_scheduler().spec_lookahead()
                &&& after.spec_committed_horizon_beat() == Some(end as i64)
            },
            Err(_) => false,
        }
    }
}

/// The events of a result, viewed as a sequence.
pub open spec fn events_of(r: Result<Vec<PlaybackEvent>, PlaybackPipelineError>) -> Result<
    Seq<PlaybackEvent>,
    PlaybackPipelineError,
> {
    match r {
        Ok(v) => Ok(v@),
        Err(e) => Err(e),
    }
}

/// `after` is `before` with all progress forgotten: no scheduler window, no
/// open or sounding notes, no committed horizons; the lookahead is kept.
pub open spec fn is_reset_of(before: PlaybackPipeline, after: PlaybackPipeline) -> bool {
    &&& after.spec_scheduler().spec_cursor() is None
    &&& after.spec_scheduler().spec_last_transport_beat() is None
    &&& after.spec_scheduler().spec_lookahead() == before.spec_scheduler().spec_lookahead()
    &&& after.spec_accepted_notes() == Set::<u128>::empty()
    &&& after.spec_active() == Map::<NoteOccurrenceKey, ActiveNote>::empty()
    &&& after.spec_committed_horizon_beat() is None
    &&& after.spec_committed_horizon_sample() is None
}

/// `after` and `r` are what a timed advance of `before` gives: an advance
/// (see `is_advance`) whose events get their sample deadlines at `tempo`,
/// with the sample horizon raised to the latest deadline handed out.
pub open spec fn is_timed_advance<'a>(
    before: PlaybackPipeline,
    after: PlaybackPipeline,
    arrangement: ArrangementView<'a>,
    transport: Transport,
    tempo: Tempo,
    probabilities: Probabilities,
    r: Result<Seq<TimedPlaybackEvent>, PlaybackPipelineError>,
) -> bool {
    match r {
        Ok(timed) => {
            &&& exists|emitted: Seq<PlaybackEvent>|
                {
                    &&& #[trigger] is_advance(
                        before,
                        after,
                        arrangement,
                        transport,
                        tempo,
                        probabilities,
                        Ok(emitted),
                    )
                    &&& timed == emitted.map_values(
                        |e: PlaybackEvent| timed_event_of(e, tempo.spec_samples_per_beat()),
                    )
                }
            &&& after.spec_committed_horizon_sample() == match max_sample_position(timed) {
                Some(m) => Some(raised_sample(before.spec_committed_horizon_sample(), m)),
                None => before.spec_committed_horizon_sample(),
            }
        },
        Err(e) => {
            &&& is_advance(before, after, arrangement, transport, tempo, probabilities, Err(e))
            &&& after.spec_committed_horizon_sample() == before.spec_committed_horizon_sample()
        },
    }
}

/// The timed events of a result, viewed as a sequence.
pub open spec fn timed_events_of(r: Result<Vec<TimedPlaybackEvent>, PlaybackPipelineError>) -> Result<
    Seq<TimedPlaybackEvent>,
    PlaybackPipelineError,
> {
    match r {
        Ok(v) => Ok(v@),
        Err(e) => Err(e),
    }
}

/// A pipeline with a fresh scheduler (default lookahead, no window), no
/// open or sounding notes and no committed horizons.
pub open spec fn is_fresh_pipeline(p: PlaybackPipeline) -> bool {
    &&& p.spec_scheduler().spec_lookahead() == DEFAULT_LOOKAHEAD
    &&& p.spec_scheduler().spec_cursor() is None
    &&& p.spec_scheduler().spec_last_transport_beat() is None
    &&& p.spec_accepted_notes() == Set::<u128>::empty()
    &&& p.spec_active() == Map::<NoteOccurrenceKey, ActiveNote>::empty()
    &&& p.spec_committed_horizon_beat() is None
    &&& p.spec_committed_horizon_sample() is None
}

impl MutationBatch {
    /// The items, in the order they were added.
    pub closed spec fn spec_items(&self) -> Seq<MutationBatchItem> {
        self.items@
    }

    /// An empty batch.
    pub fn new() -> (b: Self)
        ensures
            b.spec_items() == Seq::<MutationBatchItem>::empty(),
    {
        Self { items: Vec::new() }
    }

    /// Appends a named edit from `from_beat`; returns the batch for
    /// chaining.
    pub fn add(&mut self, label: &str, from_beat: i64) -> (r: &mut Self)
        ensures
            r.spec_items().len() == old(self).spec_items().len() + 1,
            r.spec_items().drop_last() == old(self).spec_items(),
            r.spec_items().last().label@ == label@,
            r.spec_items().last().from_beat == from_beat,
            *final(self) == *final(r),
    {
        self.items.push(MutationBatchItem { label: label.to_owned(), from_beat });
        self
    }

    /// The items, in the order they were added.
    pub fn iter(&self) -> (r: &[MutationBatchItem])
        ensures
            r@ == self.spec_items(),
    {
        self.items.as_slice()
    }

    /// Whether the batch has no items.
    pub fn is_empty(&self) -> (r: bool)
        ensures
            r == (self.spec_items().len() == 0),
    {
        self.items.len() == 0
    }
}

/// Schedules windows, gates them by probability and tracks the notes they
/// leave sounding; keeps the committed horizon.
pub struct PlaybackPipeline {
    scheduler: Scheduler,
    probability_gate: ProbabilityGate,
    active_notes: ActiveNotes,
    scheduled_horizon_beat: Option<i64>,
    committed_horizon_sample: Option<u64>,
}

impl PlaybackPipeline {
    /// The scheduler's state.
    pub closed spec fn spec_scheduler(&self) -> Scheduler {
        self.scheduler
    }

    /// Notes whose NoteOn was accepted by probability gating and that are
    /// not yet closed.
    pub closed spec fn spec_accepted_notes(&self) -> Set<u128> {
        self.probability_gate.spec_accepted_notes()
    }

    /// The notes left sounding by the events handed out.
    pub closed spec fn spec_active(&self) -> Map<NoteOccurrenceKey, ActiveNote> {
        self.active_notes.spec_active()
    }

    /// The end (ticks) of the last scheduled window, if any.
    pub closed spec fn spec_committed_horizon_beat(&self) -> Option<i64> {
        self.scheduled_horizon_beat
    }

    /// The latest sample deadline handed out, if any.
    pub closed spec fn spec_committed_horizon_sample(&self) -> Option<u64> {
        self.committed_horizon_sample
    }

    /// A pipeline with a fresh scheduler (default lookahead), no open or
    /// sounding notes and no committed horizon.
    pub fn new() -> (p: Self)
        ensures
            is_fresh_pipeline(p),
    {
        Self {
            scheduler: Scheduler::new(),
            probability_gate: ProbabilityGate::new(),
            active_notes: ActiveNotes::new(),
            scheduled_horizon_beat: None,
            committed_horizon_sample: None,
        }
    }

    /// The committed horizon (ticks): the end of the last scheduled
    /// window, if any.
    pub fn committed_horizon_beat(&self) -> (r: Option<i64>)
        ensures
            r == self.spec_committed_horizon_beat(),
    {
        self.scheduled_horizon_beat
    }

    /// The end (ticks) of the last scheduled window, if any.
    pub fn scheduled_horizon_beat(&self) -> (r: Option<i64>)
        ensures
            r == self.spec_committed_horizon_beat(),
    {
        self.scheduled_horizon_beat
    }

    /// The latest sample deadline handed out, if any.
    pub fn committed_horizon_sample(&self) -> (r: Option<u64>)
        ensures
            r == self.spec_committed_horizon_sample(),
    {
        self.committed_horizon_sample
    }

    /// Raises the sample horizon to `sample`; it never moves back.
    pub fn mark_committed_horizon_sample(&mut self, sample: u64)
        ensures
            final(self).spec_committed_horizon_sample() == Some(
                raised_sample(old(self).spec_committed_horizon_sample(), sample),
            ),
            final(self).spec_scheduler() == old(self).spec_scheduler(),
            final(self).spec_accepted_notes() == old(self).spec_accepted_notes(),
            final(self).spec_active() == old(self).spec_active(),
            final(self).spec_committed_horizon_beat() == old(self).spec_committed_horizon_beat(),
    {
        let next = match self.committed_horizon_sample {
            Some(existing) => if existing >= sample {
                existing
            } else {
                sample
            },
            None => sample,
        };
        self.committed_horizon_sample = Some(next);
    }

    /// Whether an edit may start at `from_beat` (ticks).
    pub fn mutation_decision_from_beat(&self, from_beat: i64) -> (r: MutationDecision)
        ensures
            r == decision_for(self.spec_committed_horizon_beat(), from_beat),
    {
        match self.scheduled_horizon_beat {
            None => MutationDecision::Allowed,
            Some(committed_horizon_beat) => if from_beat < 0 || from_beat < committed_horizon_beat {
                MutationDecision::Rejected { committed_horizon_beat }
            } else {
                MutationDecision::Allowed
            },
        }
    }

    /// Whether an edit may start at `from_beat` (ticks).
    pub fn can_apply_mutation_from_beat(&self, from_beat: i64) -> (r: bool)
        ensures
            r == (decision_for(self.spec_committed_horizon_beat(), from_beat)
                == MutationDecision::Allowed),
    {
        match self.mutation_decision_from_beat(from_beat) {
            MutationDecision::Allowed => true,
            MutationDecision::Rejected { .. } => false,
        }
    }

    /// Runs `op` when an edit may start at `from_beat`; otherwise returns
    /// the refusal without running it.
    pub fn apply_if_mutable_from_beat<T, F: FnOnce() -> T>(&self, from_beat: i64, op: F) -> (r:
        Result<T, MutationDecision>)
        requires
            decision_for(self.spec_committed_horizon_beat(), from_beat)
                == MutationDecision::Allowed ==> op.requires(()),
        ensures
            match r {
                Ok(v) => decision_for(self.spec_committed_horizon_beat(), from_beat)
                    == MutationDecision::Allowed && op.ensures((), v),
                Err(d) => d == decision_for(self.spec_committed_horizon_beat(), from_beat) && d
                    != MutationDecision::Allowed,
            },
    {
        match self.mutation_decision_from_beat(from_beat) {
            MutationDecision::Allowed => Ok(op()),
            MutationDecision::Rejected { committed_horizon_beat } => Err(
                MutationDecision::Rejected { committed_horizon_beat },
            ),
        }
    }

    /// The decision for a batch of edits: the refusal of the first refused
    /// edit, or allowed when none is refused.
    pub fn mutation_decision_for_batch(&self, from_beats: &[i64]) -> (r: MutationDecision)
        ensures
            r == batch_decision_for(self.spec_committed_horizon_beat(), from_beats@),
    {
        let ghost horizon = self.spec_committed_horizon_beat();
        let n = from_beats.len();
        for i in 0..n
            invariant
                n == from_beats@.len(),
                horizon == self.spec_committed_horizon_beat(),
                forall|j: int|
                    0 <= j < i ==> #[trigger] decision_for(horizon, from_beats@[j])
                        == MutationDecision::Allowed,
        {
            let decision = self.mutation_decision_from_beat(from_beats[i]);
            if let MutationDecision::Rejected { .. } = decision {
                proof {
                    let k = choose|k: int|
                        0 <= k < from_beats@.len() && #[trigger] decision_for(
                            horizon,
                            from_beats@[k],
                        ) != MutationDecision::Allowed;
                    assert(decision_for(horizon, from_beats@[i as int])
                        != MutationDecision::Allowed);
                    assert(decision_for(horizon, from_beats@[k]) == decision);
                }
                return decision;
            }
        }
        MutationDecision::Allowed
    }

    /// Whether every edit of the batch may be applied.
    pub fn can_apply_mutation_batch(&self, from_beats: &[i64]) -> (r: bool)
        ensures
            r == all_allowed(self.spec_committed_horizon_beat(), from_beats@),
    {
        match self.mutation_decision_for_batch(from_beats) {
            MutationDecision::Allowed => true,
            MutationDecision::Rejected { .. } => false,
        }
    }

    /// Runs `op` when every edit of the batch may be applied; otherwise
    /// returns the refusal without running it.
    pub fn apply_if_mutable_batch<T, F: FnOnce() -> T>(&self, from_beats: &[i64], op: F) -> (r:
        Result<T, MutationDecision>)
        requires
            all_allowed(self.spec_committed_horizon_beat(), from_beats@) ==> op.requires(()),
        ensures
            match r {
                Ok(v) => all_allowed(self.spec_committed_horizon_beat(), from_beats@)
                    && op.ensures((), v),
                Err(d) => !all_allowed(self.spec_committed_horizon_beat(), from_beats@) && d
                    == batch_decision_for(self.spec_committed_horizon_beat(), from_beats@),
            },
    {
        match self.mutation_decision_for_batch(from_beats) {
            MutationDecision::Allowed => Ok(op()),
            MutationDecision::Rejected { committed_horizon_beat } => Err(
                MutationDecision::Rejected { committed_horizon_beat },
            ),
        }
    }

    /// The decision for a named batch: a refusal names the first edit that
    /// starts before the committed horizon.
    pub fn mutation_decision_for_named_batch(&self, batch: &MutationBatch) -> (r:
        MutationBatchDecision)
        ensures
            is_named_batch_decision(self.spec_committed_horizon_beat(), batch.spec_items(), r),
    {
        let ghost horizon = self.spec_committed_horizon_beat();
        let items = batch.iter();
        let n = items.len();
        for i in 0..n
            invariant
                n == items@.len(),
                items@ == batch.spec_items(),
                horizon == self.spec_committed_horizon_beat(),
                forall|j: int|
                    0 <= j < i ==> #[trigger] decision_for(horizon, items@[j].from_beat)
                        == MutationDecision::Allowed,
        {
            let item = &items[i];
            if let MutationDecision::Rejected { committed_horizon_beat } =
                self.mutation_decision_from_beat(item.from_beat) {
                let r = MutationBatchDecision::Rejected {
                    label: item.label.clone(),
                    from_beat: item.from_beat,
                    committed_horizon_beat,
                };
                assert(is_first_refused(horizon, items@, i as int));
                assert(items@[i as int] == *item);
                return r;
            }
        }
        assert forall|j: int| 0 <= j < item_beats(items@).len() implies #[trigger] decision_for(
            horizon,
            item_beats(items@)[j],
        ) == MutationDecision::Allowed by {
            assert(item_beats(items@)[j] == items@[j].from_beat);
        }
        MutationBatchDecision::Allowed
    }

    /// Whether every edit of the named batch may be applied.
    pub fn can_apply_mutation_named_batch(&self, batch: &MutationBatch) -> (r: bool)
        ensures
            r == all_allowed(self.spec_committed_horizon_beat(), item_beats(batch.spec_items())),
    {
        let d = self.mutation_decision_for_named_batch(batch);
        proof {
            self.lemma_named_decision_allowed(batch.spec_items(), d);
        }
        match d {
            MutationBatchDecision::Allowed => true,
            MutationBatchDecision::Rejected { .. } => false,
        }
    }

    /// Runs `op` when every edit of the named batch may be applied;
    /// otherwise returns the refusal, naming the first refused edit,
    /// without running it.
    pub fn apply_if_mutable_named_batch<T, F: FnOnce() -> T>(
        &self,
        batch: &MutationBatch,
        op: F,
    ) -> (r: Result<T, MutationBatchDecision>)
        requires
            all_allowed(self.spec_committed_horizon_beat(), item_beats(batch.spec_items()))
                ==> op.requires(()),
        ensures
            match r {
                Ok(v) => all_allowed(
                    self.spec_committed_horizon_beat(),
                    item_beats(batch.spec_items()),
                ) && op.ensures((), v),
                Err(d) => d !is Allowed && is_named_batch_decision(
                    self.spec_committed_horizon_beat(),
                    batch.spec_items(),
                    d,
                ),
            },
    {
        let d = self.mutation_decision_for_named_batch(batch);
        proof {
            self.lemma_named_decision_allowed(batch.spec_items(), d);
        }
        match d {
            MutationBatchDecision::Allowed => Ok(op()),
            MutationBatchDecision::Rejected { .. } => Err(d),
        }
    }

    /// A named batch decision is `Allowed` exactly when every edit is.
    proof fn lemma_named_decision_allowed(&self, items: Seq<MutationBatchItem>, d: MutationBatchDecision)
        requires
            is_named_batch_decision(self.spec_committed_horizon_beat(), items, d),
        ensures
            (d is Allowed) == all_allowed(self.spec_committed_horizon_beat(), item_beats(items)),
    {
        if let MutationBatchDecision::Rejected { .. } = d {
            let horizon = self.spec_committed_horizon_beat();
            let i = choose|i: int|
                #![trigger items[i]]
                is_first_refused(horizon, items, i) && decision_for(
                    horizon,
                    items[i].from_beat,
                ) != MutationDecision::Allowed;
            assert(item_beats(items)[i] == items[i].from_beat);
        }
    }

    /// Sets the scheduler's lookahead (ticks); a negative one is refused
    /// and nothing changes.
    pub fn set_lookahead(&mut self, lookahead: i64) -> (r: Result<(), SchedulerError>)
        ensures
            if lookahead < 0 {
                &&& r == Err::<(), SchedulerError>(SchedulerError::InvalidLookahead)
                &&& *final(self) == *old(self)
            } else {
                &&& r is Ok
                &&& final(self).spec_scheduler().spec_lookahead() == lookahead
                &&& final(self).spec_scheduler().spec_cursor() == old(
                    self,
                ).spec_scheduler().spec_cursor()
                &&& final(self).spec_scheduler().spec_last_transport_beat() == old(
                    self,
                ).spec_scheduler().spec_last_transport_beat()
                &&& final(self).spec_accepted_notes() == old(self).spec_accepted_notes()
                &&& final(self).spec_active() == old(self).spec_active()
                &&& final(self).spec_committed_horizon_beat() == old(
                    self,
                ).spec_committed_horizon_beat()
                &&& final(self).spec_committed_horizon_sample() == old(
                    self,
                ).spec_committed_horizon_sample()
            },
    {
        self.scheduler.set_lookahead(lookahead)
    }

    /// Forgets all progress: scheduler window, gate, sounding notes and
    /// both horizons; the lookahead is kept.
    pub fn reset(&mut self)
        ensures
            is_reset_of(*old(self), *final(self)),
    {
        self.scheduler.reset();
        self.probability_gate.clear();
        self.active_notes.clear();
        self.scheduled_horizon_beat = None;
        self.committed_horizon_sample = None;
    }

    /// Switches every sounding note off at `beat` and forgets all
    /// progress, as `reset` does.
    pub fn reset_with_panic_note_offs(&mut self, beat: i64) -> (offs: Vec<PlaybackEvent>)
        ensures
            is_panic_offs(old(self).spec_active(), beat, offs@),
            is_reset_of(*old(self), *final(self)),
    {
        let offs = self.active_notes.panic_note_offs(beat);
        self.scheduler.reset();
        self.probability_gate.clear();
        self.scheduled_horizon_beat = None;
        self.committed_horizon_sample = None;
        offs
    }

    /// `reset_with_panic_note_offs`, with each NoteOff given its sample
    /// deadline at `tempo`.
    pub fn reset_with_panic_note_offs_timed(&mut self, beat: i64, tempo: &Tempo) -> (offs: Vec<
        TimedPlaybackEvent,
    >)
        ensures
            exists|untimed: Seq<PlaybackEvent>|
                {
                    &&& #[trigger] is_panic_offs(old(self).spec_active(), beat, untimed)
                    &&& offs@ == untimed.map_values(
                        |e: PlaybackEvent| timed_event_of(e, tempo.spec_samples_per_beat()),
                    )
                },
            is_reset_of(*old(self), *final(self)),
    {
        let untimed = self.reset_with_panic_note_offs(beat);
        let timed = timed_events(&untimed, tempo);
        timed
    }
    /// Schedules the next window of the arrangement, gates its note edges
    /// by `probabilities`, tracks what passes as sounding, and moves the
    /// committed horizon to the window's end (see `is_advance`).
    pub fn advance(
        &mut self,
        arrangement: &ArrangementView<'_>,
        transport: &Transport,
        tempo: &Tempo,
        probabilities: &Probabilities,
    ) -> (r: Result<Vec<PlaybackEvent>, PlaybackPipelineError>)
        ensures
            is_advance(
                *old(self),
                *final(self),
                *arrangement,
                *transport,
                *tempo,
                *probabilities,
                events_of(r),
            ),
            final(self).spec_committed_horizon_sample() == old(self).spec_committed_horizon_sample(),
    {
        let routed_notes = arrangement.routed_notes();
        let ghost routed = routed_notes@;
        let scheduled = match self.scheduler.advance_window(routed_notes, transport, tempo) {
            Ok(events) => events,
            Err(e) => {
                return Err(PlaybackPipelineError::Scheduler(e));
            },
        };
        self.scheduled_horizon_beat = self.scheduler.cursor();
        let ghost scheduler_after = self.scheduler;
        let ghost horizon_after = self.scheduled_horizon_beat;
        let ghost sample_after = self.committed_horizon_sample;
        let ghost active_before = self.active_notes.spec_active();
        let ghost accepted_before = self.probability_gate.spec_accepted_notes();
        let ghost entries = probabilities.spec_entries();
        let mut out: Vec<PlaybackEvent> = Vec::new();
        let ghost mut outcomes: Seq<bool> = Seq::empty();
        let n = scheduled.len();
        for i in 0..n
            invariant
                n == scheduled@.len(),
                entries == probabilities.spec_entries(),
                outcomes_possible(scheduled@.take(i as int), entries, outcomes),
                gate_run(accepted_before, scheduled@.take(i as int), entries, outcomes) == (
                    self.probability_gate.spec_accepted_notes(),
                    out@,
                ),
                self.scheduler == scheduler_after,
                self.scheduled_horizon_beat == horizon_after,
                self.committed_horizon_sample == sample_after,
                self.active_notes.spec_active() == active_before,
        {
            let event = &scheduled[i];
            let ghost open_before = self.probability_gate.spec_accepted_notes();
            let ghost out_before = out@;
            let passed = self.probability_gate.apply(event, probabilities);
            proof {
                let b = choose|b: bool|
                    {
                        &&& crate::playback::probability_gate::note_on_outcome_possible(
                            crate::playback::probability_gate::chance_of(
                                entries,
                                event.note.spec_id(),
                            ),
                            b,
                        )
                        &&& (self.probability_gate.spec_accepted_notes(), passed)
                            == crate::playback::probability_gate::gate_step(
                            open_before,
                            *event,
                            entries.contains_key(event.note.spec_id()),
                            b,
                        )
                    };
                let taken = scheduled@.take(i + 1);
                assert(taken.drop_last() == scheduled@.take(i as int));
                assert(taken.last() == *event);
                assert(outcomes.push(b).drop_last() == outcomes);
                assert(outcomes_possible(taken, entries, outcomes.push(b))) by {
                    assert forall|j: int| 0 <= j < taken.len() implies crate::playback::probability_gate::note_on_outcome_possible(
                        crate::playback::probability_gate::chance_of(entries, taken[j].note.spec_id()),
                        #[trigger] outcomes.push(b)[j],
                    ) by {
                        if j < i {
                            assert(taken[j] == scheduled@.take(i as int)[j]);
                            assert(outcomes.push(b)[j] == outcomes[j]);
                        }
                    }
                }
                outcomes = outcomes.push(b);
            }
            if let Some(p) = passed {
                out.push(p);
            }
            assert(out@ == match passed {
                Some(p) => out_before.push(p),
                None => out_before,
            });
        }
        assert(scheduled@.take(n as int) == scheduled@);
        let ghost emitted = out@;
        let m = out.len();
        for i in 0..m
            invariant
                m == out@.len(),
                out@ == emitted,
                self.active_notes.spec_active() == after_tracking_all(
                    active_before,
                    emitted.take(i as int),
                ),
                self.scheduler == scheduler_after,
                self.scheduled_horizon_beat == horizon_after,
                self.committed_horizon_sample == sample_after,
                self.probability_gate.spec_accepted_notes() == gate_run(
                    accepted_before,
                    scheduled@,
                    entries,
                    outcomes,
                ).0,
        {
            self.active_notes.track_event(&out[i]);
            assert(emitted.take(i + 1).drop_last() == emitted.take(i as int));
        }
        assert(emitted.take(m as int) == emitted);
        proof {
            let current = transport.spec_beat_position(tempo);
            let start = window_start_of(
                old(self).spec_scheduler().spec_cursor(),
                transport.spec_state(),
                current,
            );
            let end = current + old(self).spec_scheduler().spec_lookahead();
            if start != end && window_error(start, end) is None {
                assert(is_window_pass(
                    *arrangement,
                    *probabilities,
                    window_first_tick(
                        old(self).spec_scheduler().spec_cursor(),
                        transport.spec_state(),
                        start,
                    ),
                    end + 1,
                    old(self).spec_accepted_notes(),
                    routed,
                    scheduled@,
                    outcomes,
                    self.spec_accepted_notes(),
                    emitted,
                ));
            }
        }
        Ok(out)
    }

    /// `advance`, with each handed-out event given its sample deadline at
    /// `tempo`; the sample horizon is raised to the latest deadline.
    pub fn advance_timed(
        &mut self,
        arrangement: &ArrangementView<'_>,
        transport: &Transport,
        tempo: &Tempo,
        probabilities: &Probabilities,
    ) -> (r: Result<Vec<TimedPlaybackEvent>, PlaybackPipelineError>)
        ensures
            is_timed_advance(
                *old(self),
                *final(self),
                *arrangement,
                *transport,
                *tempo,
                *probabilities,
                timed_events_of(r),
            ),
    {
        let events = match self.advance(arrangement, transport, tempo, probabilities) {
            Ok(events) => events,
            Err(e) => {
                return Err(e);
            },
        };
        let ghost mid = *self;
        let timed = timed_events(&events, tempo);
        if let Some(max_sample) = latest_sample_position(&timed) {
            self.mark_committed_horizon_sample(max_sample);
        }
        proof {
            lemma_is_advance_ignores_sample(
                *old(self),
                mid,
                *self,
                *arrangement,
                *transport,
                *tempo,
                *probabilities,
                Ok(events@),
            );
        }
        Ok(timed)
    }
}

/// The committed horizon is the scheduler's cursor: the end of the last
/// scheduled window, or nothing before the first window.
pub open spec fn horizon_is_cursor(p: PlaybackPipeline) -> bool {
    p.spec_committed_horizon_beat() == p.spec_scheduler().spec_cursor()
}

/// Law: an edit allowed from `from_beat` is allowed from every later beat.
pub proof fn law_allowed_edit_stays_allowed_later(horizon: Option<i64>, from_beat: i64, later: i64)
    requires
        decision_for(horizon, from_beat) == MutationDecision::Allowed,
        from_beat <= later,
    ensures
        decision_for(horizon, later) == MutationDecision::Allowed,
{
}

/// Law: with a committed horizon, an edit from the horizon itself is
/// allowed and an edit from any earlier beat is refused with that horizon.
pub proof fn law_horizon_is_the_boundary(h: i64, from_beat: i64)
    requires
        h >= 0,
    ensures
        decision_for(Some(h), h) == MutationDecision::Allowed,
        from_beat < h ==> decision_for(Some(h), from_beat) == (MutationDecision::Rejected {
            committed_horizon_beat: h,
        }),
{
}

/// Law: without a committed horizon (before the first window, or after a
/// reset) every edit, single or batched, is allowed.
pub proof fn law_no_horizon_allows_everything(from_beats: Seq<i64>)
    ensures
        all_allowed(None, from_beats),
        batch_decision_for(None, from_beats) == MutationDecision::Allowed,
{
}

/// Law: a batch is allowed exactly when each of its edits is; a refused
/// batch is refused with the committed horizon.
pub proof fn law_batch_allowed_iff_each_allowed(horizon: Option<i64>, from_beats: Seq<i64>)
    ensures
        (batch_decision_for(horizon, from_beats) == MutationDecision::Allowed) == all_allowed(
            horizon,
            from_beats,
        ),
        batch_decision_for(horizon, from_beats) != MutationDecision::Allowed ==> horizon
            is Some && batch_decision_for(horizon, from_beats) == (MutationDecision::Rejected {
            committed_horizon_beat: horizon->0,
        }),
{
    if !all_allowed(horizon, from_beats) {
        let i = choose|i: int|
            0 <= i < from_beats.len() && #[trigger] decision_for(horizon, from_beats[i])
                != MutationDecision::Allowed;
        assert(decision_for(horizon, from_beats[i]) != MutationDecision::Allowed);
    }
}

/// Law: a named batch is allowed exactly when its start beats, as a plain
/// batch, are.
pub proof fn law_named_batch_agrees_with_plain_batch(
    horizon: Option<i64>,
    items: Seq<MutationBatchItem>,
    d: MutationBatchDecision,
)
    requires
        is_named_batch_decision(horizon, items, d),
    ensures
        (d is Allowed) == (batch_decision_for(horizon, item_beats(items))
            == MutationDecision::Allowed),
{
    law_batch_allowed_iff_each_allowed(horizon, item_beats(items));
    if let MutationBatchDecision::Rejected { .. } = d {
        let i = choose|i: int|
            #![trigger items[i]]
            is_first_refused(horizon, items, i) && decision_for(horizon, items[i].from_beat)
                != MutationDecision::Allowed;
        assert(item_beats(items)[i] == items[i].from_beat);
    }
}

/// Law: the committed horizon is the scheduler's cursor in a fresh
/// pipeline, after a reset, and after every advance from a pipeline where
/// it was.
pub proof fn law_horizon_follows_cursor<'a>(
    fresh: PlaybackPipeline,
    before: PlaybackPipeline,
    reset: PlaybackPipeline,
    after: PlaybackPipeline,
    arrangement: ArrangementView<'a>,
    transport: Transport,
    tempo: Tempo,
    probabilities: Probabilities,
    r: Result<Seq<PlaybackEvent>, PlaybackPipelineError>,
)
    ensures
        is_fresh_pipeline(fresh) ==> horizon_is_cursor(fresh),
        is_reset_of(before, reset) ==> horizon_is_cursor(reset),
        horizon_is_cursor(before) && is_advance(
            before,
            after,
            arrangement,
            transport,
            tempo,
            probabilities,
            r,
        ) ==> horizon_is_cursor(after),
{
}

/// Law: unless the transport is rewinding, an advance never moves the
/// committed horizon back; a successful non-empty window moves it forward.
pub proof fn law_horizon_never_moves_back<'a>(
    before: PlaybackPipeline,
    after: PlaybackPipeline,
    arrangement: ArrangementView<'a>,
    transport: Transport,
    tempo: Tempo,
    probabilities: Probabilities,
    r: Result<Seq<PlaybackEvent>, PlaybackPipelineError>,
)
    requires
        horizon_is_cursor(before),
        before.spec_committed_horizon_beat() is Some,
        transport.spec_state() != crate::transport::enums::TransportState::Rewinding,
        is_advance(before, after, arrangement, transport, tempo, probabilities, r),
    ensures
        after.spec_committed_horizon_beat() is Some,
        after.spec_committed_horizon_beat()->0 >= before.spec_committed_horizon_beat()->0,
        (r matches Ok(events) && events.len() > 0) ==> after.spec_committed_horizon_beat()->0
            > before.spec_committed_horizon_beat()->0,
{
}

/// Law: a reset brings a pipeline back to where it was before its first
/// window. A fresh pipeline is its own reset, and two reset pipelines with
/// the same lookahead advance alike: every advance of one, with its result,
/// is an advance of the other.
pub proof fn law_reset_pipelines_advance_alike<'a>(
    fresh: PlaybackPipeline,
    before1: PlaybackPipeline,
    reset1: PlaybackPipeline,
    before2: PlaybackPipeline,
    reset2: PlaybackPipeline,
    after: PlaybackPipeline,
    arrangement: ArrangementView<'a>,
    transport: Transport,
    tempo: Tempo,
    probabilities: Probabilities,
    r: Result<Seq<PlaybackEvent>, PlaybackPipelineError>,
)
    ensures
        is_fresh_pipeline(fresh) ==> is_reset_of(fresh, fresh),
        is_reset_of(before1, reset1) && is_reset_of(before2, reset2)
            && reset1.spec_scheduler().spec_lookahead() == reset2.spec_scheduler().spec_lookahead()
            ==> (is_advance(reset1, after, arrangement, transport, tempo, probabilities, r)
            == is_advance(reset2, after, arrangement, transport, tempo, probabilities, r)),
{
    if is_reset_of(before1, reset1) && is_reset_of(before2, reset2)
        && reset1.spec_scheduler().spec_lookahead() == reset2.spec_scheduler().spec_lookahead() {
        crate::scheduler::scheduler::lemma_scheduler_determined(
            reset1.spec_scheduler(),
            reset2.spec_scheduler(),
        );
    }
}

/// `is_advance` does not look at the sample horizon.
proof fn lemma_is_advance_ignores_sample<'a>(
    before: PlaybackPipeline,
    mid: PlaybackPipeline,
    after: PlaybackPipeline,
    arrangement: ArrangementView<'a>,
    transport: Transport,
    tempo: Tempo,
    probabilities: Probabilities,
    r: Result<Seq<PlaybackEvent>, PlaybackPipelineError>,
)
    requires
        is_advance(before, mid, arrangement, transport, tempo, probabilities, r),
        after.spec_scheduler() == mid.spec_scheduler(),
        after.spec_accepted_notes() == mid.spec_accepted_notes(),
        after.spec_active() == mid.spec_active(),
        after.spec_committed_horizon_beat() == mid.spec_committed_horizon_beat(),
    ensures
        is_advance(before, after, arrangement, transport, tempo, probabilities, r),
{
}

/// Raising the sample horizon again to the latest deadline of a timed
/// advance keeps it a timed advance.
pub(crate) proof fn lemma_timed_advance_remark<'a>(
    before: PlaybackPipeline,
    mid: PlaybackPipeline,
    after: PlaybackPipeline,
    arrangement: ArrangementView<'a>,
    transport: Transport,
    tempo: Tempo,
    probabilities: Probabilities,
    timed: Seq<TimedPlaybackEvent>,
)
    requires
        is_timed_advance(before, mid, arrangement, transport, tempo, probabilities, Ok(timed)),
        after.spec_scheduler() == mid.spec_scheduler(),
        after.spec_accepted_notes() == mid.spec_accepted_notes(),
        after.spec_active() == mid.spec_active(),
        after.spec_committed_horizon_beat() == mid.spec_committed_horizon_beat(),
        after.spec_committed_horizon_sample() == match max_sample_position(timed) {
            Some(m) => Some(raised_sample(mid.spec_committed_horizon_sample(), m)),
            None => mid.spec_committed_horizon_sample(),
        },
    ensures
        is_timed_advance(before, after, arrangement, transport, tempo, probabilities, Ok(timed)),
{
    let emitted = choose|emitted: Seq<PlaybackEvent>|
        {
            &&& #[trigger] is_advance(
                before,
                mid,
                arrangement,
                transport,
                tempo,
                probabilities,
                Ok(emitted),
            )
            &&& timed == emitted.map_values(
                |e: PlaybackEvent| timed_event_of(e, tempo.spec_samples_per_beat()),
            )
        };
    lemma_is_advance_ignores_sample(
        before,
        mid,
        after,
        arrangement,
        transport,
        tempo,
        probabilities,
        Ok(emitted),
    );
}

/// The latest sample deadline among `events`, if any.
pub(crate) fn latest_sample_position(events: &Vec<TimedPlaybackEvent>) -> (r: Option<u64>)
    ensures
        r == max_sample_position(events@),
{
    let mut latest: Option<u64> = None;
    let n = events.len();
    for i in 0..n
        invariant
            n == events@.len(),
            latest == max_sample_position(events@.take(i as int)),
    {
        let sample = events[i].sample_position;
        latest = Some(
            match latest {
                Some(existing) => if existing >= sample {
                    existing
                } else {
                    sample
                },
                None => sample,
            },
        );
        assert(events@.take(i + 1).drop_last() == events@.take(i as int));
    }
    assert(events@.take(n as int) == events@);
    latest
}

/// Gives each event its sample deadline at `tempo`, in order.
pub fn timed_events(events: &Vec<PlaybackEvent>, tempo: &Tempo) -> (r: Vec<TimedPlaybackEvent>)
    ensures
        r@ == events@.map_values(|e: PlaybackEvent| timed_event_of(e, tempo.spec_samples_per_beat())),
{
    let mut out: Vec<TimedPlaybackEvent> = Vec::new();
    let n = events.len();
    for i in 0..n
        invariant
            n == events@.len(),
            out@ == events@.take(i as int).map_values(
                |e: PlaybackEvent| timed_event_of(e, tempo.spec_samples_per_beat()),
            ),
    {
        out.push(TimedPlaybackEvent::from_playback_event(&events[i], tempo));
        assert(events@.take(i + 1) == events@.take(i as int).push(events@[i as int]));
    }
    assert(events@.take(n as int) == events@);
    out
}

} // verus!
