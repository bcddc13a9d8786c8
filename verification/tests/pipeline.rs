use engine_lab::clips::{
    ArrangementView, Clip, ClipPlacement, ClipPlacements, ClipPlaybackMode, ClipRouter, Clips,
};
use engine_lab::playback::{
    MutationBatch, MutationBatchDecision, MutationDecision, PlaybackEventKind, PlaybackExecutor,
    PlaybackPipeline, PlaybackPipelineError, PlaybackQueue, PlaybackRuntime, Probabilities,
    ProbabilityTarget, TimedPlaybackEvent,
};
use engine_lab::scheduler::enums::SchedulerError;
use engine_lab::scheduler::{NoteOccurrenceKey, ScheduledNote};
use engine_lab::tempo::{Tempo, TICKS_PER_BEAT};
use engine_lab::transport::Transport;
use std::cell::Cell;
use uuid::Uuid;

/// A beat position in ticks; a non-finite beat has no tick value and is
/// stood in for by the most negative one, which every beat input refuses.
fn ticks(beats: f64) -> i64 {
    if !beats.is_finite() {
        return i64::MIN;
    }
    (beats * TICKS_PER_BEAT as f64).round() as i64
}

/// A beat position in beats.
fn beats(ticks: i64) -> f64 {
    ticks as f64 / TICKS_PER_BEAT as f64
}

/// Notes routed to one clip with one placement, full probabilities, and a
/// playing transport at 120 BPM and 44.1 kHz.
struct PlaybackFixture {
    notes: Vec<ScheduledNote>,
    clips: Clips,
    placements: ClipPlacements,
    router: ClipRouter,
    probabilities: Probabilities,
    transport: Transport,
    tempo: Tempo,
}

impl PlaybackFixture {
    fn new(notes: Vec<ScheduledNote>, clip: Clip, placement_start: f64, placement_length: f64) -> Self {
        let mut clips = Clips::new();
        let clip_id = clips.add(clip);

        let mut placements = ClipPlacements::new();
        let placement_id = placements
            .add(ClipPlacement::new(clip_id, ticks(placement_start), ticks(placement_length)).unwrap());

        let mut router = ClipRouter::new();
        for note in &notes {
            router.route_note_to_clip(*note.id(), clip_id);
        }
        router.add_placement_to_clip(clip_id, placement_id);

        let mut probabilities = Probabilities::new();
        for note in &notes {
            probabilities.add(*note.id(), 100, ProbabilityTarget::Note).unwrap();
        }

        let mut transport = Transport::new();
        let tempo = Tempo::new(120_000, 44_100, (4, 4));
        transport.play();
        transport.set_sample_position(tempo.beats_to_samples(ticks(8.0)));

        Self { notes, clips, placements, router, probabilities, transport, tempo }
    }

    /// One note at the clip start, of the given length, in a one-shot clip
    /// placed at beat 8 for 4 beats.
    fn one_shot_note(length: f64) -> Self {
        let note = ScheduledNote::new(ticks(0.0), 60, ticks(length)).unwrap();
        let clip = Clip::new(ticks(4.0), ClipPlaybackMode::OneShot).unwrap();
        Self::new(vec![note], clip, 8.0, 4.0)
    }

    fn arrangement(&self) -> ArrangementView<'_> {
        ArrangementView::new(&self.notes, &self.clips, &self.placements, &self.router)
    }
}

/// A pipeline with half a beat of lookahead.
fn pipeline_with_short_lookahead() -> PlaybackPipeline {
    let mut pipeline = PlaybackPipeline::new();
    pipeline.set_lookahead(ticks(0.5)).unwrap();
    pipeline
}

/// The three notes of the looping scenario in a four-beat loop placed at
/// beat 8 for 8 beats.
fn looping_fixture() -> PlaybackFixture {
    let note_a = ScheduledNote::new(ticks(0.0), 60, ticks(0.5)).unwrap();
    let note_b = ScheduledNote::new(ticks(1.0), 62, ticks(0.5)).unwrap();
    let note_c = ScheduledNote::new(ticks(3.75), 64, ticks(0.5)).unwrap();
    let clip = Clip::new(
        ticks(4.0),
        ClipPlaybackMode::Loop { start_beat: ticks(0.0), end_beat: ticks(4.0) },
    )
    .unwrap();
    PlaybackFixture::new(vec![note_a, note_b, note_c], clip, 8.0, 8.0)
}

fn run_looping_scenario() -> Vec<(f64, &'static str)> {
    let mut fixture = looping_fixture();
    let mut pipeline = pipeline_with_short_lookahead();
    let mut events = Vec::new();
    for _ in 0..=30 {
        {
            let arrangement = fixture.arrangement();
            events.extend(
                pipeline
                    .advance(&arrangement, &fixture.transport, &fixture.tempo, &fixture.probabilities)
                    .unwrap(),
            );
        }
        fixture.transport.advance_b(ticks(0.25), &fixture.tempo);
    }
    events
        .iter()
        .map(|e| {
            let state = match e.kind {
                PlaybackEventKind::NoteOn { .. } => "On",
                PlaybackEventKind::NoteOff { .. } => "Off",
                _ => "Other",
            };
            (beats(e.beat), state)
        })
        .collect()
}

fn expected_looping_slice() -> Vec<(f64, &'static str)> {
    vec![
        (8.0, "On"),
        (8.5, "Off"),
        (9.0, "On"),
        (9.5, "Off"),
        (11.75, "On"),
        (12.0, "Off"),
        (12.0, "On"),
        (12.5, "Off"),
        (13.0, "On"),
        (13.5, "Off"),
        (15.75, "On"),
        (16.0, "Off"),
    ]
}

#[test]
fn pipline_looping_clip_pipeline_emits_expected_playback_slice() {
    assert_eq!(run_looping_scenario(), expected_looping_slice());
}

#[test]
fn looping_clip_pipeline_looping_clip_pipeline_emits_expected_playback_slice() {
    let actual = run_looping_scenario();
    let expected = expected_looping_slice();
    assert_eq!(actual, expected);
}

#[test]
fn reset_clears_pipeline_state_for_rewinds_or_seeks() {
    let note = ScheduledNote::new(ticks(0.0), 60, ticks(0.5)).unwrap();
    let clip = Clip::new(
        ticks(4.0),
        ClipPlaybackMode::Loop { start_beat: ticks(0.0), end_beat: ticks(4.0) },
    )
    .unwrap();
    let mut fixture = PlaybackFixture::new(vec![note], clip, 8.0, 4.0);
    let mut pipeline = pipeline_with_short_lookahead();

    let first_pass = {
        let arrangement = fixture.arrangement();
        pipeline
            .advance(&arrangement, &fixture.transport, &fixture.tempo, &fixture.probabilities)
            .unwrap()
    };
    assert!(!first_pass.is_empty());

    pipeline.reset();
    fixture.transport.set_sample_position(fixture.tempo.beats_to_samples(ticks(8.0)));
    let second_pass = {
        let arrangement = fixture.arrangement();
        pipeline
            .advance(&arrangement, &fixture.transport, &fixture.tempo, &fixture.probabilities)
            .unwrap()
    };

    assert_eq!(first_pass.len(), second_pass.len());
    assert_eq!(first_pass[0].beat, second_pass[0].beat);
}

#[test]
fn reset_with_panic_note_offs_flushes_active_notes() {
    let fixture = PlaybackFixture::one_shot_note(2.0);
    let arrangement = fixture.arrangement();
    let mut pipeline = pipeline_with_short_lookahead();

    let first = pipeline
        .advance(&arrangement, &fixture.transport, &fixture.tempo, &fixture.probabilities)
        .unwrap();
    assert!(first.iter().any(|e| matches!(e.kind, PlaybackEventKind::NoteOn { .. })));

    let panic_offs = pipeline.reset_with_panic_note_offs(ticks(8.25));
    assert_eq!(panic_offs.len(), 1);
    assert_eq!(panic_offs[0].beat, ticks(8.25));
    assert!(matches!(panic_offs[0].kind, PlaybackEventKind::NoteOff { note: 60 }));

    let panic_offs_again = pipeline.reset_with_panic_note_offs(ticks(8.5));
    assert!(panic_offs_again.is_empty());
}

#[test]
fn advance_timed_converts_beats_to_samples_and_preserves_identity() {
    let fixture = PlaybackFixture::one_shot_note(0.5);
    let arrangement = fixture.arrangement();
    let mut pipeline = pipeline_with_short_lookahead();

    let timed = pipeline
        .advance_timed(&arrangement, &fixture.transport, &fixture.tempo, &fixture.probabilities)
        .unwrap();
    assert_eq!(timed.len(), 2);

    // 8 beats at 120 BPM and 44.1kHz => 8 * 22050 = 176400 samples.
    assert_eq!(timed[0].sample_position, 176_400);
    assert_eq!(timed[1].sample_position, fixture.tempo.beats_to_samples(ticks(8.5)));
    assert_eq!(timed[0].note_id, *fixture.notes[0].id());
    assert_eq!(timed[1].note_id, *fixture.notes[0].id());
    assert!(matches!(timed[0].kind, PlaybackEventKind::NoteOn { note: 60, .. }));
    assert!(matches!(timed[1].kind, PlaybackEventKind::NoteOff { note: 60 }));
}

#[test]
fn reset_with_panic_note_offs_timed_converts_deadlines() {
    let fixture = PlaybackFixture::one_shot_note(2.0);
    let arrangement = fixture.arrangement();
    let mut pipeline = pipeline_with_short_lookahead();

    let _ = pipeline.advance(&arrangement, &fixture.transport, &fixture.tempo, &fixture.probabilities);

    let timed_offs = pipeline.reset_with_panic_note_offs_timed(ticks(8.25), &fixture.tempo);
    assert_eq!(timed_offs.len(), 1);
    assert_eq!(timed_offs[0].sample_position, fixture.tempo.beats_to_samples(ticks(8.25)));
    assert!(matches!(timed_offs[0].kind, PlaybackEventKind::NoteOff { note: 60 }));
}

#[test]
fn committed_horizon_advances_with_successful_windows() {
    let mut fixture = PlaybackFixture::one_shot_note(0.5);
    let mut pipeline = pipeline_with_short_lookahead();

    assert_eq!(pipeline.committed_horizon_beat(), None);

    {
        let arrangement = fixture.arrangement();
        let _ = pipeline.advance(&arrangement, &fixture.transport, &fixture.tempo, &fixture.probabilities);
    }
    let horizon_1 = pipeline.committed_horizon_beat().unwrap();
    assert!((beats(horizon_1) - 8.5).abs() < 1e-3);

    fixture.transport.advance_b(ticks(0.25), &fixture.tempo);
    {
        let arrangement = fixture.arrangement();
        let _ = pipeline.advance(&arrangement, &fixture.transport, &fixture.tempo, &fixture.probabilities);
    }
    let horizon_2 = pipeline.committed_horizon_beat().unwrap();
    assert!((beats(horizon_2) - 8.75).abs() < 1e-3);
}

#[test]
fn committed_horizon_clears_on_reset_variants() {
    let fixture = PlaybackFixture::one_shot_note(2.0);
    let arrangement = fixture.arrangement();
    let mut pipeline = pipeline_with_short_lookahead();

    let _ = pipeline.advance(&arrangement, &fixture.transport, &fixture.tempo, &fixture.probabilities);
    assert!(pipeline.committed_horizon_beat().is_some());

    pipeline.reset();
    assert_eq!(pipeline.committed_horizon_beat(), None);

    let _ = pipeline.advance(&arrangement, &fixture.transport, &fixture.tempo, &fixture.probabilities);
    assert!(pipeline.committed_horizon_beat().is_some());
    let _ = pipeline.reset_with_panic_note_offs(ticks(8.25));
    assert_eq!(pipeline.committed_horizon_beat(), None);
}

/// A pipeline that has scheduled one window of the one-shot fixture, and
/// its committed horizon.
fn committed_pipeline(fixture: &PlaybackFixture) -> (PlaybackPipeline, i64) {
    let arrangement = fixture.arrangement();
    let mut pipeline = pipeline_with_short_lookahead();
    let _ = pipeline
        .advance(&arrangement, &fixture.transport, &fixture.tempo, &fixture.probabilities)
        .unwrap();
    let committed = pipeline.committed_horizon_beat().unwrap();
    (pipeline, committed)
}

#[test]
fn pipline_mutation_guard_blocks_mutations_before_committed_horizon() {
    let fixture = PlaybackFixture::one_shot_note(0.5);
    let (pipeline, committed) = committed_pipeline(&fixture);

    assert!(pipeline.can_apply_mutation_from_beat(committed));
    assert!(matches!(
        pipeline.mutation_decision_from_beat(committed - ticks(0.25)),
        MutationDecision::Rejected { .. }
    ));
    assert!(pipeline.can_apply_mutation_from_beat(committed + ticks(0.01)));
}

#[test]
fn mutation_guards_mutation_guard_blocks_mutations_before_committed_horizon() {
    let fixture = PlaybackFixture::one_shot_note(0.5);
    let arrangement = fixture.arrangement();

    let mut pipeline = PlaybackPipeline::new();
    pipeline.set_lookahead(ticks(0.5)).unwrap();

    let _ = pipeline
        .advance(&arrangement, &fixture.transport, &fixture.tempo, &fixture.probabilities)
        .unwrap();
    let committed = pipeline.committed_horizon_beat().unwrap();

    assert!(pipeline.can_apply_mutation_from_beat(committed));
    assert!(matches!(
        pipeline.mutation_decision_from_beat(committed - ticks(0.25)),
        MutationDecision::Rejected { .. }
    ));
    assert!(pipeline.can_apply_mutation_from_beat(committed + ticks(0.01)));
}

#[test]
fn apply_if_mutable_from_beat_executes_only_when_allowed() {
    let fixture = PlaybackFixture::one_shot_note(0.5);
    let (pipeline, committed) = committed_pipeline(&fixture);

    let ran_rejected = Cell::new(false);
    let rejected = pipeline.apply_if_mutable_from_beat(committed - ticks(0.1), || {
        ran_rejected.set(true);
        1usize
    });
    assert!(matches!(rejected, Err(MutationDecision::Rejected { .. })));
    assert!(!ran_rejected.get());

    let ran_allowed = Cell::new(false);
    let allowed = pipeline.apply_if_mutable_from_beat(committed + ticks(0.1), || {
        ran_allowed.set(true);
        2usize
    });
    assert_eq!(allowed.unwrap(), 2);
    assert!(ran_allowed.get());
}

#[test]
fn mutation_batch_rejects_if_any_beat_is_before_horizon() {
    let fixture = PlaybackFixture::one_shot_note(0.5);
    let (pipeline, committed) = committed_pipeline(&fixture);

    assert!(!pipeline.can_apply_mutation_batch(&[
        committed + ticks(0.1),
        committed - ticks(0.01),
        committed + ticks(0.25),
    ]));

    assert!(matches!(
        pipeline.mutation_decision_for_batch(&[
            committed + ticks(0.1),
            committed - ticks(0.01),
            committed + ticks(0.25),
        ]),
        MutationDecision::Rejected { .. }
    ));
}

/// Runs the all-or-nothing batch scenario on a committed pipeline.
fn check_apply_if_mutable_batch(pipeline: &PlaybackPipeline, committed: i64) {
    let ran_rejected = Cell::new(false);
    let rejected = pipeline.apply_if_mutable_batch(&[committed + ticks(0.1), committed - ticks(0.1)], || {
        ran_rejected.set(true);
        7usize
    });
    assert!(matches!(rejected, Err(MutationDecision::Rejected { .. })));
    assert!(!ran_rejected.get());

    let ran_allowed = Cell::new(false);
    let allowed = pipeline.apply_if_mutable_batch(&[committed + ticks(0.1), committed + ticks(0.2)], || {
        ran_allowed.set(true);
        9usize
    });
    assert_eq!(allowed.unwrap(), 9);
    assert!(ran_allowed.get());
}

#[test]
fn pipline_apply_if_mutable_batch_executes_only_when_all_allowed() {
    let fixture = PlaybackFixture::one_shot_note(0.5);
    let (pipeline, committed) = committed_pipeline(&fixture);
    check_apply_if_mutable_batch(&pipeline, committed);
}

#[test]
fn mutation_guards_apply_if_mutable_batch_executes_only_when_all_allowed() {
    let fixture = PlaybackFixture::one_shot_note(0.5);
    let arrangement = fixture.arrangement();
    let mut pipeline = PlaybackPipeline::new();
    pipeline.set_lookahead(ticks(0.5)).unwrap();
    let _ = pipeline
        .advance(&arrangement, &fixture.transport, &fixture.tempo, &fixture.probabilities)
        .unwrap();
    let committed = pipeline.committed_horizon_beat().unwrap();
    check_apply_if_mutable_batch(&pipeline, committed);
}

/// Runs the named batch scenario on a committed pipeline.
fn check_named_batch_rejection(pipeline: &PlaybackPipeline, committed: i64) {
    let mut batch = MutationBatch::new();
    batch
        .add("update_clip_length", committed + ticks(0.1))
        .add("move_note_earlier", committed - ticks(0.01))
        .add("retime_probability", committed + ticks(0.25));

    match pipeline.mutation_decision_for_named_batch(&batch) {
        MutationBatchDecision::Allowed => {
            panic!("expected named batch to be rejected");
        }
        MutationBatchDecision::Rejected { label, from_beat, committed_horizon_beat } => {
            assert_eq!(label, "move_note_earlier");
            assert_eq!(from_beat, committed - ticks(0.01));
            assert!((beats(committed_horizon_beat) - beats(committed)).abs() < 1e-9);
        }
    }
}

#[test]
fn pipline_named_batch_rejection_reports_offending_operation() {
    let fixture = PlaybackFixture::one_shot_note(0.5);
    let (pipeline, committed) = committed_pipeline(&fixture);
    check_named_batch_rejection(&pipeline, committed);
}

#[test]
fn mutation_guards_named_batch_rejection_reports_offending_operation() {
    let fixture = PlaybackFixture::one_shot_note(0.5);
    let arrangement = fixture.arrangement();
    let mut pipeline = PlaybackPipeline::new();
    pipeline.set_lookahead(ticks(0.5)).unwrap();
    let _ = pipeline
        .advance(&arrangement, &fixture.transport, &fixture.tempo, &fixture.probabilities)
        .unwrap();
    let committed = pipeline.committed_horizon_beat().unwrap();
    check_named_batch_rejection(&pipeline, committed);
}

#[test]
fn committed_horizon_advances_and_clears_on_reset() {
    let mut fixture = PlaybackFixture::one_shot_note(0.5);

    let mut pipeline = PlaybackPipeline::new();
    pipeline.set_lookahead(ticks(0.5)).unwrap();

    assert_eq!(pipeline.committed_horizon_beat(), None);

    {
        let arrangement = fixture.arrangement();
        let _ = pipeline
            .advance(&arrangement, &fixture.transport, &fixture.tempo, &fixture.probabilities)
            .unwrap();
    }
    let horizon_1 = pipeline.committed_horizon_beat().unwrap();
    assert!((beats(horizon_1) - 8.5).abs() < 1e-3);

    fixture.transport.advance_b(ticks(0.25), &fixture.tempo);
    {
        let arrangement = fixture.arrangement();
        let _ = pipeline
            .advance(&arrangement, &fixture.transport, &fixture.tempo, &fixture.probabilities)
            .unwrap();
    }
    let horizon_2 = pipeline.committed_horizon_beat().unwrap();
    assert!((beats(horizon_2) - 8.75).abs() < 1e-3);

    pipeline.reset();
    assert_eq!(pipeline.committed_horizon_beat(), None);
    assert_eq!(pipeline.committed_horizon_sample(), None);
}

#[test]
fn advance_timed_updates_sample_horizon() {
    let fixture = PlaybackFixture::one_shot_note(0.5);

    let mut pipeline = PlaybackPipeline::new();
    pipeline.set_lookahead(ticks(0.5)).unwrap();

    let timed = {
        let arrangement = fixture.arrangement();
        pipeline
            .advance_timed(&arrangement, &fixture.transport, &fixture.tempo, &fixture.probabilities)
            .unwrap()
    };

    assert_eq!(timed.len(), 2);
    assert_eq!(
        pipeline.committed_horizon_sample(),
        Some(fixture.tempo.beats_to_samples(ticks(8.5)))
    );
}

#[test]
fn block_processing_tracks_active_notes_only_after_execution() {
    let note_id = Uuid::new_v4().as_u128();
    let placement_id = Uuid::new_v4().as_u128();
    let key = NoteOccurrenceKey::new(note_id, placement_id, 0);

    let on = TimedPlaybackEvent {
        sample_position: 100,
        note_id,
        occurrence_key: key,
        channel: 1,
        kind: PlaybackEventKind::NoteOn { note: 60, velocity: 100 },
    };

    let off = TimedPlaybackEvent {
        sample_position: 300,
        note_id,
        occurrence_key: key,
        channel: 1,
        kind: PlaybackEventKind::NoteOff { note: 60 },
    };

    let mut queue = PlaybackQueue::new();
    queue.push_batch(vec![on, off]);

    let mut executor = PlaybackExecutor::new();

    let due_0 = queue.drain_due(128);
    assert_eq!(due_0.len(), 1);
    assert!(matches!(due_0[0].kind, PlaybackEventKind::NoteOn { .. }));
    for event in &due_0 {
        executor.execute(event);
    }

    let due_1 = queue.drain_due(256);
    assert!(due_1.is_empty());

    let panic_at_200 = executor.panic_note_offs(200);
    assert_eq!(panic_at_200.len(), 1);
    assert!(matches!(panic_at_200[0].kind, PlaybackEventKind::NoteOff { note: 60 }));
    assert_eq!(panic_at_200[0].sample_position, 200);

    queue.clear();
    assert!(queue.drain_due(384).is_empty());
}

#[test]
fn runtime_stop_clears_queue_and_pipeline_state() {
    let mut fixture = PlaybackFixture::one_shot_note(0.5);

    let mut runtime = PlaybackRuntime::new();
    runtime.pipeline_mut().set_lookahead(ticks(0.5)).unwrap();

    {
        let arrangement = fixture.arrangement();
        let _ = runtime
            .schedule(&arrangement, &fixture.transport, &fixture.tempo, &fixture.probabilities)
            .unwrap();
    }

    // Execute the first block so NoteOn becomes genuinely active.
    let first_block_end = fixture.transport.sample_position() + 128;
    let _ = runtime.process_until(first_block_end);

    let panic_offs = runtime.stop(fixture.transport.sample_position() + 200, &mut fixture.transport);
    assert!(!panic_offs.is_empty());
    assert!(runtime.queue().is_empty());
    assert_eq!(runtime.pipeline().committed_horizon_beat(), None);
}

#[test]
fn runtime_schedules_processes_and_seeks() {
    let mut fixture = PlaybackFixture::one_shot_note(0.5);
    let mut runtime = PlaybackRuntime::new();
    runtime.pipeline_mut().set_lookahead(ticks(0.5)).unwrap();
    let queued = {
        let arrangement = fixture.arrangement();
        runtime
            .schedule(&arrangement, &fixture.transport, &fixture.tempo, &fixture.probabilities)
            .unwrap()
    };
    assert_eq!(queued, 2);
    assert_eq!(runtime.pipeline().committed_horizon_sample(), Some(187_425));
    let due = runtime.process_until(200_000);
    assert_eq!(due.len(), 2);
    assert!(runtime.queue().is_empty());
    // The note was switched on and off again: nothing is left sounding.
    let offs = runtime.seek(200_000, 1_000, &mut fixture.transport);
    assert!(offs.is_empty());
    assert_eq!(fixture.transport.sample_position(), 1_000);
    assert!(fixture.transport.is_playing());
    assert_eq!(runtime.pipeline().committed_horizon_beat(), None);
    let offs = runtime.rewind(0, &mut fixture.transport);
    assert!(offs.is_empty());
    assert_eq!(fixture.transport.sample_position(), 0);
}

#[test]
fn refused_window_is_reported_and_changes_nothing() {
    let mut fixture = PlaybackFixture::one_shot_note(0.5);
    let (mut pipeline, committed) = committed_pipeline(&fixture);
    // Jump back without a reset: the next window would end before the cursor.
    fixture.transport.set_sample_position(0);
    let arrangement = fixture.arrangement();
    let result = pipeline.advance(&arrangement, &fixture.transport, &fixture.tempo, &fixture.probabilities);
    assert_eq!(
        result.unwrap_err(),
        PlaybackPipelineError::Scheduler(SchedulerError::InvalidNegativeWindow)
    );
    assert_eq!(pipeline.committed_horizon_beat(), Some(committed));
    let timed = pipeline.advance_timed(&arrangement, &fixture.transport, &fixture.tempo, &fixture.probabilities);
    assert!(timed.is_err());
    assert_eq!(pipeline.committed_horizon_sample(), None);
}

#[test]
fn edits_are_free_before_the_first_window_and_after_reset() {
    let fixture = PlaybackFixture::one_shot_note(0.5);
    let mut pipeline = pipeline_with_short_lookahead();
    assert_eq!(pipeline.mutation_decision_from_beat(-5), MutationDecision::Allowed);
    assert!(pipeline.can_apply_mutation_batch(&[0, ticks(1.0), -1]));
    let (mut committed_one, committed) = committed_pipeline(&fixture);
    assert_eq!(
        committed_one.mutation_decision_for_batch(&[committed, committed - 1]),
        MutationDecision::Rejected { committed_horizon_beat: committed }
    );
    assert_eq!(
        committed_one.mutation_decision_from_beat(-1),
        MutationDecision::Rejected { committed_horizon_beat: committed }
    );
    committed_one.reset();
    assert!(committed_one.can_apply_mutation_from_beat(0));
    pipeline.reset();
    assert!(pipeline.can_apply_mutation_from_beat(0));
}

#[test]
fn named_batch_allowed_runs_the_operation() {
    let fixture = PlaybackFixture::one_shot_note(0.5);
    let (pipeline, committed) = committed_pipeline(&fixture);
    let mut batch = MutationBatch::new();
    assert!(batch.is_empty());
    batch.add("later", committed + 1).add("at_horizon", committed);
    assert!(!batch.is_empty());
    assert_eq!(batch.iter().len(), 2);
    assert_eq!(batch.iter()[1].label, "at_horizon");
    assert!(pipeline.can_apply_mutation_named_batch(&batch));
    assert_eq!(pipeline.apply_if_mutable_named_batch(&batch, || 5u8), Ok(5));
    batch.add("early", committed - 1);
    let refused = pipeline.apply_if_mutable_named_batch(&batch, || 6u8);
    assert_eq!(
        refused,
        Err(MutationBatchDecision::Rejected {
            label: "early".to_string(),
            from_beat: committed - 1,
            committed_horizon_beat: committed,
        })
    );
}

#[test]
fn sample_horizon_never_moves_back() {
    let mut pipeline = PlaybackPipeline::new();
    assert_eq!(pipeline.committed_horizon_sample(), None);
    pipeline.mark_committed_horizon_sample(500);
    pipeline.mark_committed_horizon_sample(300);
    assert_eq!(pipeline.committed_horizon_sample(), Some(500));
    pipeline.mark_committed_horizon_sample(900);
    assert_eq!(pipeline.committed_horizon_sample(), Some(900));
    assert_eq!(pipeline.scheduled_horizon_beat(), None);
}

#[test]
fn rejected_note_on_never_reaches_the_pipeline_output() {
    let mut fixture = PlaybackFixture::one_shot_note(0.5);
    fixture.probabilities.update(fixture.notes[0].id(), 0, ProbabilityTarget::Note).unwrap();
    let arrangement = fixture.arrangement();
    let mut pipeline = pipeline_with_short_lookahead();
    let events = pipeline
        .advance(&arrangement, &fixture.transport, &fixture.tempo, &fixture.probabilities)
        .unwrap();
    assert!(events.is_empty());
    assert!(pipeline.reset_with_panic_note_offs(0).is_empty());
}
