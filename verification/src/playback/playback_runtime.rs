//! The realtime side of playback: scheduled windows go into a deadline
//! queue, due events are executed block by block, and a stop or a seek
//! switches off whatever is sounding.
use crate::clips::arrangement_view::ArrangementView;
use crate::playback::active_notes::{after_tracking_all_timed, is_timed_panic_offs, ActiveNote};
use crate::playback::pipeline::{
    is_fresh_pipeline, is_reset_of, is_timed_advance, raised_sample, PlaybackPipeline, PlaybackPipelineError,
};
use crate::playback::playback_executor::PlaybackExecutor;
use crate::playback::playback_queue::PlaybackQueue;
use crate::playback::probability::Probabilities;
use crate::playback::timed_playback_event::TimedPlaybackEvent;
use crate::scheduler::occurrence::NoteOccurrenceKey;
use crate::sorting::{sorted_by_key, ties_of};
use crate::tempo::Tempo;
use crate::transport::enums::TransportState;
use crate::transport::transport::Transport;
use vstd::prelude::*;

verus! {

/// A pipeline feeding a deadline queue, and an executor of due events.
pub struct PlaybackRuntime {
    pipeline: PlaybackPipeline,
    queue: PlaybackQueue,
    executor: PlaybackExecutor,
}

impl PlaybackRuntime {
    /// The pipeline.
    pub closed spec fn spec_pipeline(&self) -> PlaybackPipeline {
        self.pipeline
    }

    /// The queued events, in deadline order.
    pub closed spec fn spec_queued(&self) -> Seq<TimedPlaybackEvent> {
        self.queue.spec_events()
    }

    /// The notes sounding after the events executed so far.
    pub closed spec fn spec_sounding(&self) -> Map<NoteOccurrenceKey, ActiveNote> {
        self.executor.spec_active()
    }

    /// A fresh pipeline, an empty queue and nothing sounding.
    pub fn new() -> (r: Self)
        ensures
            is_fresh_pipeline(r.spec_pipeline()),
            r.spec_queued() == Seq::<TimedPlaybackEvent>::empty(),
            r.spec_sounding() == Map::<NoteOccurrenceKey, ActiveNote>::empty(),
    {
        Self {
            pipeline: PlaybackPipeline::new(),
            queue: PlaybackQueue::new(),
            executor: PlaybackExecutor::new(),
        }
    }

    /// The pipeline.
    pub fn pipeline(&self) -> (r: &PlaybackPipeline)
        ensures
            *r == self.spec_pipeline(),
    {
        &self.pipeline
    }

    /// The pipeline, for changing its settings.
    pub fn pipeline_mut(&mut self) -> (r: &mut PlaybackPipeline)
        ensures
            *r == old(self).spec_pipeline(),
            final(self).spec_pipeline() == *final(r),
            final(self).spec_queued() == old(self).spec_queued(),
            final(self).spec_sounding() == old(self).spec_sounding(),
    {
        &mut self.pipeline
    }

    /// The queue.
    pub fn queue(&self) -> (r: &PlaybackQueue)
        ensures
            r.spec_events() == self.spec_queued(),
    {
        &self.queue
    }

    /// Advances the pipeline by one timed window, queues what it hands out
    /// and returns how many events were queued. The sample horizon is raised
    /// to the latest queued deadline. On a refused window nothing is queued.
    pub fn schedule(
        &mut self,
        arrangement: &ArrangementView<'_>,
        transport: &Transport,
        tempo: &Tempo,
        probabilities: &Probabilities,
    ) -> (r: Result<usize, PlaybackPipelineError>)
        ensures
            exists|timed: Result<Seq<TimedPlaybackEvent>, PlaybackPipelineError>|
                {
                    &&& #[trigger] is_timed_advance(
                        old(self).spec_pipeline(),
                        final(self).spec_pipeline(),
                        *arrangement,
                        *transport,
                        *tempo,
                        *probabilities,
                        timed,
                    )
                    &&& match (timed, r) {
                        (Ok(t), Ok(n)) => {
                            &&& n == t.len()
                            &&& sorted_by_key(final(self).spec_queued())
                            &&& final(self).spec_queued().to_multiset() == old(self).spec_queued().to_multiset().add(
                                t.to_multiset(),
                            )
                            &&& forall|x: TimedPlaybackEvent| #[trigger]
                                ties_of(final(self).spec_queued(), x) == ties_of(
                                    old(self).spec_queued() + t,
                                    x,
                                )
                        },
                        (Err(e1), Err(e2)) => {
                            &&& e1 == e2
                            &&& final(self).spec_queued() == old(self).spec_queued()
                        },
                        _ => false,
                    }
                },
            final(self).spec_sounding() == old(self).spec_sounding(),
    {
        let timed = match self.pipeline.advance_timed(arrangement, transport, tempo, probabilities) {
            Ok(timed) => timed,
            Err(e) => {
                proof {
                    assert(is_timed_advance(
                        old(self).spec_pipeline(),
                        self.spec_pipeline(),
                        *arrangement,
                        *transport,
                        *tempo,
                        *probabilities,
                        Err(e),
                    ));
                }
                return Err(e);
            },
        };
        let ghost timed_seq = timed@;
        let ghost advanced = self.pipeline;
        let max_sample = crate::playback::pipeline::latest_sample_position(&timed);
        let len = timed.len();
        self.queue.push_batch(timed);
        if let Some(sample) = max_sample {
            self.pipeline.mark_committed_horizon_sample(sample);
        }
        proof {
            crate::playback::pipeline::lemma_timed_advance_remark(
                old(self).spec_pipeline(),
                advanced,
                self.pipeline,
                *arrangement,
                *transport,
                *tempo,
                *probabilities,
                timed_seq,
            );
            assert(is_timed_advance(
                old(self).spec_pipeline(),
                self.spec_pipeline(),
                *arrangement,
                *transport,
                *tempo,
                *probabilities,
                Ok(timed_seq),
            ));
        }
        Ok(len)
    }

    /// Executes the queued events due by `block_end_sample`, in deadline
    /// order, and returns them.
    pub fn process_until(&mut self, block_end_sample: u64) -> (due: Vec<TimedPlaybackEvent>)
        ensures
            sorted_by_key(due@),
            due@.len() <= old(self).spec_queued().len(),
            due@ == old(self).spec_queued().take(due@.len() as int),
            final(self).spec_queued() == old(self).spec_queued().skip(due@.len() as int),
            forall|i: int|
                0 <= i < due@.len() ==> #[trigger] due@[i].sample_position <= block_end_sample,
            forall|i: int|
                0 <= i < final(self).spec_queued().len() ==> (#[trigger] final(self).spec_queued()[i]).sample_position
                    > block_end_sample,
            final(self).spec_sounding() == after_tracking_all_timed(
                old(self).spec_sounding(),
                due@,
            ),
            final(self).spec_pipeline() == old(self).spec_pipeline(),
    {
        let due = self.queue.drain_due(block_end_sample);
        let ghost sounding_before = self.executor.spec_active();
        let ghost queued_after = self.queue.spec_events();
        let n = due.len();
        for i in 0..n
            invariant
                n == due@.len(),
                self.executor.spec_active() == after_tracking_all_timed(
                    sounding_before,
                    due@.take(i as int),
                ),
                self.pipeline == old(self).pipeline,
                self.queue.spec_events() == queued_after,
        {
            self.executor.execute(&due[i]);
            assert(due@.take(i + 1).drop_last() == due@.take(i as int));
        }
        assert(due@.take(n as int) == due@);
        due
    }

    /// Switches off every sounding note at `current_sample`, drops the
    /// queue, resets the pipeline and stops the transport.
    pub fn stop(&mut self, current_sample: u64, transport: &mut Transport) -> (offs: Vec<
        TimedPlaybackEvent,
    >)
        ensures
            is_timed_panic_offs(old(self).spec_sounding(), current_sample, offs@),
            final(self).spec_sounding() == Map::<NoteOccurrenceKey, ActiveNote>::empty(),
            final(self).spec_queued() == Seq::<TimedPlaybackEvent>::empty(),
            is_reset_of(old(self).spec_pipeline(), final(self).spec_pipeline()),
            final(transport).spec_state() == TransportState::Stopped,
            final(transport).spec_sample_position() == 0,
    {
        let offs = self.executor.panic_note_offs(current_sample);
        self.queue.clear();
        self.pipeline.reset();
        transport.stop();
        offs
    }

    /// Switches off every sounding note at `current_sample`, drops the
    /// queue, resets the pipeline and moves the transport to
    /// `target_sample`; the transport's state is kept.
    pub fn seek(&mut self, current_sample: u64, target_sample: u64, transport: &mut Transport) -> (offs:
        Vec<TimedPlaybackEvent>)
        ensures
            is_timed_panic_offs(old(self).spec_sounding(), current_sample, offs@),
            final(self).spec_sounding() == Map::<NoteOccurrenceKey, ActiveNote>::empty(),
            final(self).spec_queued() == Seq::<TimedPlaybackEvent>::empty(),
            is_reset_of(old(self).spec_pipeline(), final(self).spec_pipeline()),
            final(transport).spec_state() == old(transport).spec_state(),
            final(transport).spec_sample_position() == target_sample,
    {
        let offs = self.executor.panic_note_offs(current_sample);
        self.queue.clear();
        self.pipeline.reset();
        transport.set_sample_position(target_sample);
        offs
    }

    /// `seek` to the first sample.
    pub fn rewind(&mut self, current_sample: u64, transport: &mut Transport) -> (offs: Vec<
        TimedPlaybackEvent,
    >)
        ensures
            is_timed_panic_offs(old(self).spec_sounding(), current_sample, offs@),
            final(self).spec_sounding() == Map::<NoteOccurrenceKey, ActiveNote>::empty(),
            final(self).spec_queued() == Seq::<TimedPlaybackEvent>::empty(),
            is_reset_of(old(self).spec_pipeline(), final(self).spec_pipeline()),
            final(transport).spec_state() == old(transport).spec_state(),
            final(transport).spec_sample_position() == 0,
    {
        self.seek(current_sample, 0, transport)
    }
}

} // verus!
