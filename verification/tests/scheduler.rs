use engine_lab::clips::{
    ArrangementView, Clip, ClipPlacement, ClipPlacements, ClipPlaybackMode, ClipRouter, Clips,
};
use engine_lab::scheduler::enums::{NoteState, SchedulerError, ScheduledNoteError};
use engine_lab::scheduler::scheduled_note::MAX_BEAT;
use engine_lab::scheduler::{NoteOccurrenceKey, ScheduledEvent, ScheduledNote, Scheduler};
use engine_lab::tempo::{Tempo, TICKS_PER_BEAT};
use engine_lab::transport::Transport;
use uuid::Uuid;

/// A beat position in ticks; a non-finite beat has no tick value and is
/// stood in for by the most negative one, which every beat input refuses.
fn ticks(beats: f64) -> i64 {
    if !beats.is_finite() {
        return i64::MIN;
    }
    (beats * TICKS_PER_BEAT as f64).round() as i64
}

fn tempo_120() -> Tempo {
    Tempo::new(120_000, 44_100, (4, 4))
}

#[test]
fn scheduled_note_create() {
    let mut note = ScheduledNote::new(ticks(0.0), 60, ticks(2.0)).unwrap();
    assert_eq!(note.start_beat(), ticks(0.0));
    assert_eq!(note.end_beat(), ticks(2.0));
    assert_eq!(note.length(), ticks(2.0));
    assert_eq!(note.note(), 60);
    assert_eq!(note.velocity(), 127);

    assert!(note.set_length(ticks(f64::NAN)).is_err());
    assert!(note.set_velocity(128).is_err());
}

#[test]
fn errors() {
    let mut note = ScheduledNote::new(ticks(0.0), 60, ticks(2.0)).unwrap();

    assert!(note.set_length(ticks(-1.0)).is_err());
    assert!(note.set_length(ticks(f64::NAN)).is_err());
    assert!(note.set_length(ticks(f64::NEG_INFINITY)).is_err());
    assert!(note.set_length(MAX_BEAT).is_err());

    assert!(note.move_to(ticks(-1.0)).is_err());
    assert!(note.move_to(ticks(f64::NAN)).is_err());
    assert!(note.move_to(ticks(f64::INFINITY)).is_err());
    assert!(note.move_to(MAX_BEAT).is_err());
}

#[test]
fn note_construction_errors_name_each_refusal() {
    assert_eq!(ScheduledNote::new(-1, 60, ticks(1.0)).unwrap_err(), ScheduledNoteError::InvalidStartBeat);
    assert_eq!(ScheduledNote::new(0, 128, ticks(1.0)).unwrap_err(), ScheduledNoteError::InvalidNoteValue);
    assert_eq!(ScheduledNote::new(0, 60, 0).unwrap_err(), ScheduledNoteError::InvalidLength);
    assert_eq!(ScheduledNote::new(MAX_BEAT - 1, 60, 2).unwrap_err(), ScheduledNoteError::InvalidLength);
    assert!(ScheduledNote::new(MAX_BEAT - 2, 60, 2).is_ok());
}

#[test]
fn note_edits_keep_length_or_start() {
    let mut note = ScheduledNote::new(ticks(1.0), 60, ticks(2.0)).unwrap();
    note.move_to(ticks(5.0)).unwrap();
    assert_eq!(note.start_beat(), ticks(5.0));
    assert_eq!(note.end_beat(), ticks(7.0));
    assert_eq!(note.move_to(-3), Err(ScheduledNoteError::InvalidStartBeat));
    assert_eq!(note.start_beat(), ticks(5.0));
    note.set_length(ticks(0.5)).unwrap();
    assert_eq!(note.start_beat(), ticks(5.0));
    assert_eq!(note.end_beat(), ticks(5.5));
    assert_eq!(note.set_length(0), Err(ScheduledNoteError::InvalidLength));
    assert_eq!(note.length(), ticks(0.5));
    note.set_velocity(64).unwrap();
    assert_eq!(note.velocity(), 64);
    assert_eq!(note.set_velocity(200), Err(ScheduledNoteError::InvalidVelocity));
    assert_eq!(note.velocity(), 64);
}

#[test]
fn note_ids_are_random() {
    let a = ScheduledNote::new(0, 60, 1).unwrap();
    let b = ScheduledNote::new(0, 60, 1).unwrap();
    assert_ne!(a.id(), b.id());
    assert_eq!(Uuid::from_u128(*a.id()).get_version_num(), 4);
}

#[test]
fn key_stores_note_id_and_iteration() {
    let id = Uuid::new_v4().as_u128();
    let placement_id = Uuid::new_v4().as_u128();
    let key = NoteOccurrenceKey::new(id, placement_id, 3);

    assert_eq!(key.note_id(), &id);
    assert_eq!(key.placement_id(), &placement_id);
    assert_eq!(key.loop_iteration(), 3);
}

#[test]
fn scheduled_event_create() {
    let note = ScheduledNote::new(ticks(0.0), 60, ticks(2.0)).unwrap();
    let occurrence_key = NoteOccurrenceKey::new(*note.id(), Uuid::new_v4().as_u128(), 0);
    let event = ScheduledEvent::new(&note, NoteState::On, ticks(8.0), occurrence_key);
    assert_eq!(event.beat(), ticks(8.0));
    assert_eq!(event.state(), NoteState::On);
    assert_eq!(event.note().start_beat(), ticks(0.0));
    assert_eq!(event.occurrence_key().note_id(), note.id());
    assert_eq!(event.loop_iteration(), 0);
    assert_eq!(event.occurrence_key().loop_iteration(), 0);
}

#[test]
fn creation_and_setters() {
    let mut scheduler = Scheduler::new();
    assert_eq!(scheduler.lookahead(), ticks(4.0));

    scheduler.set_lookahead(ticks(2.0)).unwrap();
    assert_eq!(scheduler.lookahead(), ticks(2.0));
    assert!(scheduler.set_lookahead(ticks(-1.0)).is_err());
    assert!(scheduler.set_lookahead(ticks(f64::NAN)).is_err());
    assert!(scheduler.set_lookahead(ticks(f64::INFINITY)).is_err());
}

#[test]
fn refused_lookahead_changes_nothing() {
    let mut scheduler = Scheduler::new();
    assert_eq!(scheduler.set_lookahead(-1), Err(SchedulerError::InvalidLookahead));
    assert_eq!(scheduler.lookahead(), ticks(4.0));
    assert_eq!(scheduler.cursor(), None);
    assert_eq!(scheduler.last_transport_beat(), None);
}

#[test]
fn one_shot_placement_resolves_global_beats() {
    let note = ScheduledNote::new(ticks(1.0), 60, ticks(0.5)).unwrap();

    let mut clips = Clips::new();
    let clip = Clip::new(ticks(4.0), ClipPlaybackMode::OneShot).unwrap();
    let clip_id = clips.add(clip);

    let mut placements = ClipPlacements::new();
    let placement_id = placements.add(ClipPlacement::new(clip_id, ticks(16.0), ticks(8.0)).unwrap());

    let mut router = ClipRouter::new();
    router.route_note_to_clip(*note.id(), clip_id);
    router.add_placement_to_clip(clip_id, placement_id);

    let notes = vec![note];
    let arrangement = ArrangementView::new(&notes, &clips, &placements, &router);
    let routed_notes = arrangement.routed_notes();

    let mut scheduler = Scheduler::new();
    scheduler.set_lookahead(ticks(8.0)).unwrap();

    let mut transport = Transport::new();
    let tempo = tempo_120();
    transport.play();
    transport.set_sample_position(tempo.beats_to_samples(ticks(16.0)));

    let events = scheduler.advance_window(routed_notes, &transport, &tempo).unwrap();

    assert_eq!(events.len(), 2);
    assert_eq!(events[0].beat(), ticks(17.0));
    assert_eq!(events[1].beat(), ticks(17.5));
}

#[test]
fn looped_clip_emits_per_iteration_occurrences() {
    let note = ScheduledNote::new(ticks(1.0), 60, ticks(0.5)).unwrap();

    let mut clips = Clips::new();
    let clip = Clip::new(
        ticks(4.0),
        ClipPlaybackMode::Loop { start_beat: ticks(0.0), end_beat: ticks(4.0) },
    )
    .unwrap();
    let clip_id = clips.add(clip);

    let mut placements = ClipPlacements::new();
    let placement_id = placements.add(ClipPlacement::new(clip_id, ticks(16.0), ticks(12.0)).unwrap());

    let mut router = ClipRouter::new();
    router.route_note_to_clip(*note.id(), clip_id);
    router.add_placement_to_clip(clip_id, placement_id);

    let notes = vec![note];
    let arrangement = ArrangementView::new(&notes, &clips, &placements, &router);
    let routed_notes = arrangement.routed_notes();

    let mut scheduler = Scheduler::new();
    scheduler.set_lookahead(ticks(32.0)).unwrap();

    let mut transport = Transport::new();
    transport.play();

    let tempo = tempo_120();
    let events = scheduler.advance_window(routed_notes, &transport, &tempo).unwrap();

    assert!(events.iter().any(|e| e.beat() == ticks(17.0)));
    assert!(events.iter().any(|e| e.beat() == ticks(21.0)));
    assert!(events.iter().any(|e| e.beat() == ticks(25.0)));

    let on_events: Vec<_> = events.iter().filter(|e| e.state() == NoteState::On).collect();

    assert_eq!(on_events.len(), 3);
    assert_ne!(*on_events[0].occurrence_key().placement_id(), Uuid::nil().as_u128());
    assert_eq!(on_events[0].occurrence_key().loop_iteration(), 0);
    assert_eq!(on_events[1].occurrence_key().loop_iteration(), 1);
    assert_eq!(on_events[2].occurrence_key().loop_iteration(), 2);
}

/// A note routed to one clip placed once, with its arrangement parts.
struct Setup {
    notes: Vec<ScheduledNote>,
    clips: Clips,
    placements: ClipPlacements,
    router: ClipRouter,
}

fn setup(note_start: f64, note_length: f64, mode: ClipPlaybackMode, at: f64, length: f64) -> Setup {
    let note = ScheduledNote::new(ticks(note_start), 60, ticks(note_length)).unwrap();
    let mut clips = Clips::new();
    let clip_id = clips.add(Clip::new(ticks(4.0), mode).unwrap());
    let mut placements = ClipPlacements::new();
    let placement_id = placements.add(ClipPlacement::new(clip_id, ticks(at), ticks(length)).unwrap());
    let mut router = ClipRouter::new();
    router.route_note_to_clip(*note.id(), clip_id);
    router.add_placement_to_clip(clip_id, placement_id);
    Setup { notes: vec![note], clips, placements, router }
}

#[test]
fn looped_note_is_released_at_iteration_end_and_placement_end() {
    let s = setup(
        3.75,
        0.5,
        ClipPlaybackMode::Loop { start_beat: 0, end_beat: ticks(4.0) },
        8.0,
        8.0,
    );
    let arrangement = ArrangementView::new(&s.notes, &s.clips, &s.placements, &s.router);
    let mut scheduler = Scheduler::new();
    scheduler.set_lookahead(ticks(16.0)).unwrap();
    let mut transport = Transport::new();
    transport.play();
    let tempo = tempo_120();
    transport.set_sample_position(tempo.beats_to_samples(ticks(4.0)));
    let events = scheduler.advance_window(arrangement.routed_notes(), &transport, &tempo).unwrap();
    let beats: Vec<(i64, NoteState)> = events.iter().map(|e| (e.beat(), e.state())).collect();
    assert_eq!(
        beats,
        vec![
            (ticks(11.75), NoteState::On),
            (ticks(12.0), NoteState::Off),
            (ticks(15.75), NoteState::On),
            (ticks(16.0), NoteState::Off),
        ]
    );
}

#[test]
fn one_shot_release_at_placement_end_is_dropped() {
    let s = setup(3.0, 1.0, ClipPlaybackMode::OneShot, 8.0, 4.0);
    let arrangement = ArrangementView::new(&s.notes, &s.clips, &s.placements, &s.router);
    let mut scheduler = Scheduler::new();
    scheduler.set_lookahead(ticks(16.0)).unwrap();
    let mut transport = Transport::new();
    transport.play();
    let tempo = tempo_120();
    let events = scheduler.advance_window(arrangement.routed_notes(), &transport, &tempo).unwrap();
    assert_eq!(events.len(), 1);
    assert_eq!(events[0].beat(), ticks(11.0));
    assert_eq!(events[0].state(), NoteState::On);
}

#[test]
fn consecutive_windows_emit_each_edge_once() {
    let s = setup(
        0.5,
        1.0,
        ClipPlaybackMode::Loop { start_beat: 0, end_beat: ticks(2.0) },
        0.0,
        16.0,
    );
    let arrangement = ArrangementView::new(&s.notes, &s.clips, &s.placements, &s.router);
    let tempo = tempo_120();

    let mut whole = Scheduler::new();
    whole.set_lookahead(ticks(16.0)).unwrap();
    let mut transport = Transport::new();
    transport.play();
    let all = whole.advance_window(arrangement.routed_notes(), &transport, &tempo).unwrap();
    let all: Vec<(i64, NoteState)> = all.iter().map(|e| (e.beat(), e.state())).collect();

    let mut stepped = Scheduler::new();
    stepped.set_lookahead(ticks(1.0)).unwrap();
    let mut collected = Vec::new();
    let mut transport = Transport::new();
    transport.play();
    for _ in 0..16 {
        let events = stepped.advance_window(arrangement.routed_notes(), &transport, &tempo).unwrap();
        collected.extend(events.iter().map(|e| (e.beat(), e.state())));
        transport.advance_b(ticks(1.0), &tempo);
    }
    assert_eq!(collected, all);
    assert_eq!(all.len(), 16);
}

#[test]
fn window_progress_is_committed() {
    let s = setup(1.0, 0.5, ClipPlaybackMode::OneShot, 0.0, 4.0);
    let arrangement = ArrangementView::new(&s.notes, &s.clips, &s.placements, &s.router);
    let tempo = tempo_120();
    let mut scheduler = Scheduler::new();
    scheduler.set_lookahead(ticks(1.0)).unwrap();
    let mut transport = Transport::new();
    transport.play();
    transport.set_sample_position(tempo.beats_to_samples(ticks(2.0)));
    scheduler.advance_window(arrangement.routed_notes(), &transport, &tempo).unwrap();
    assert_eq!(scheduler.cursor(), Some(ticks(3.0)));
    assert_eq!(scheduler.last_transport_beat(), Some(ticks(2.0)));
    scheduler.reset();
    assert_eq!(scheduler.cursor(), None);
    assert_eq!(scheduler.last_transport_beat(), None);
    assert_eq!(scheduler.lookahead(), ticks(1.0));
}

#[test]
fn empty_window_returns_nothing_and_changes_nothing() {
    let s = setup(0.0, 0.5, ClipPlaybackMode::OneShot, 0.0, 4.0);
    let arrangement = ArrangementView::new(&s.notes, &s.clips, &s.placements, &s.router);
    let tempo = tempo_120();
    let mut scheduler = Scheduler::new();
    scheduler.set_lookahead(0).unwrap();
    let transport = Transport::new();
    let events = scheduler.advance_window(arrangement.routed_notes(), &transport, &tempo).unwrap();
    assert!(events.is_empty());
    assert_eq!(scheduler.cursor(), None);
}

#[test]
fn window_behind_the_cursor_is_refused() {
    let s = setup(0.0, 0.5, ClipPlaybackMode::OneShot, 0.0, 4.0);
    let arrangement = ArrangementView::new(&s.notes, &s.clips, &s.placements, &s.router);
    let tempo = tempo_120();
    let mut scheduler = Scheduler::new();
    scheduler.set_lookahead(ticks(1.0)).unwrap();
    let mut transport = Transport::new();
    transport.play();
    transport.set_sample_position(tempo.beats_to_samples(ticks(8.0)));
    scheduler.advance_window(arrangement.routed_notes(), &transport, &tempo).unwrap();
    transport.set_sample_position(0);
    assert_eq!(
        scheduler.advance_window(arrangement.routed_notes(), &transport, &tempo).err(),
        Some(SchedulerError::InvalidNegativeWindow)
    );
    assert_eq!(scheduler.cursor(), Some(ticks(9.0)));
}

#[test]
fn events_sort_by_beat_then_off_before_on() {
    let note_a = ScheduledNote::new(0, 60, ticks(1.0)).unwrap();
    let note_b = ScheduledNote::new(ticks(1.0), 62, ticks(1.0)).unwrap();
    let mut clips = Clips::new();
    let clip_id = clips.add(Clip::new(ticks(4.0), ClipPlaybackMode::OneShot).unwrap());
    let mut placements = ClipPlacements::new();
    let placement_id = placements.add(ClipPlacement::new(clip_id, 0, ticks(4.0)).unwrap());
    let mut router = ClipRouter::new();
    // Route in reverse order so that sorting has work to do.
    router.route_note_to_clip(*note_b.id(), clip_id);
    router.route_note_to_clip(*note_a.id(), clip_id);
    router.add_placement_to_clip(clip_id, placement_id);
    let notes = vec![note_b, note_a];
    let arrangement = ArrangementView::new(&notes, &clips, &placements, &router);
    let mut scheduler = Scheduler::new();
    let mut transport = Transport::new();
    transport.play();
    let events = scheduler.advance_window(arrangement.routed_notes(), &transport, &tempo_120()).unwrap();
    let order: Vec<(i64, NoteState)> = events.iter().map(|e| (e.beat(), e.state())).collect();
    assert_eq!(
        order,
        vec![
            (0, NoteState::On),
            (ticks(1.0), NoteState::Off),
            (ticks(1.0), NoteState::On),
            (ticks(2.0), NoteState::Off),
        ]
    );
}
