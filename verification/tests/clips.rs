use engine_lab::clips::{
    ArrangementView, Clip, ClipPlacement, ClipPlacements, ClipPlaybackMode, ClipPlaybackModeError,
    ClipRouter, Clips,
};
use engine_lab::scheduler::ScheduledNote;
use engine_lab::tempo::TICKS_PER_BEAT;
use uuid::Uuid;

/// A beat position in ticks; a non-finite beat has no tick value and is
/// stood in for by the most negative one, which every beat input refuses.
fn ticks(beats: f64) -> i64 {
    if !beats.is_finite() {
        return i64::MIN;
    }
    (beats * TICKS_PER_BEAT as f64).round() as i64
}

fn random_id() -> u128 {
    Uuid::new_v4().as_u128()
}

#[test]
fn clip_placement_create() {
    let clip_id = random_id();
    let placement = ClipPlacement::new(clip_id, ticks(0.0), ticks(4.0)).unwrap();
    assert!(placement.start_beat() >= ticks(0.0));
    assert_eq!(placement.end_beat(), placement.start_beat() + placement.length());
}

#[test]
fn create_with_clip() {
    let clip = Clip::new(ticks(4.0), ClipPlaybackMode::OneShot).unwrap();
    let placement = ClipPlacement::new(*clip.id(), ticks(0.0), ticks(4.0)).unwrap();
    assert_eq!(placement.clip_id(), clip.id());
    let clip = Clip::new(
        ticks(8.0),
        ClipPlaybackMode::Loop { start_beat: ticks(2.0), end_beat: ticks(6.0) },
    )
    .unwrap();
    let placement = ClipPlacement::new(*clip.id(), ticks(1.0), ticks(4.0)).unwrap();
    assert_eq!(placement.clip_id(), clip.id());
}

#[test]
fn placement_refuses_negative_start_and_empty_length() {
    let clip_id = random_id();
    assert_eq!(
        ClipPlacement::new(clip_id, ticks(-1.0), ticks(4.0)).unwrap_err(),
        "Placement start must be finite and non-negative"
    );
    assert_eq!(
        ClipPlacement::new(clip_id, ticks(f64::NAN), ticks(4.0)).unwrap_err(),
        "Placement start must be finite and non-negative"
    );
    assert_eq!(
        ClipPlacement::new(clip_id, ticks(1.0), 0).unwrap_err(),
        "Placement length must be finite and greater than zero"
    );
    assert_eq!(
        ClipPlacement::new(clip_id, ticks(1.0), ticks(-2.0)).unwrap_err(),
        "Placement length must be finite and greater than zero"
    );
    assert_eq!(
        ClipPlacement::new(clip_id, i64::MAX - 1, 2).unwrap_err(),
        "Placement length must be finite and greater than zero"
    );
}

#[test]
fn placement_ids_are_random_and_distinct() {
    let clip_id = random_id();
    let a = ClipPlacement::new(clip_id, 0, ticks(1.0)).unwrap();
    let b = ClipPlacement::new(clip_id, 0, ticks(1.0)).unwrap();
    assert_ne!(a.id(), b.id());
    assert_ne!(*a.id(), 0);
    assert_eq!(Uuid::from_u128(*a.id()).get_version_num(), 4);
}

#[test]
fn clip_errors_name_each_refusal() {
    assert_eq!(
        Clip::new(0, ClipPlaybackMode::OneShot).unwrap_err(),
        ClipPlaybackModeError::LoopBoundsNotFinite
    );
    assert_eq!(
        Clip::new(ticks(4.0), ClipPlaybackMode::Loop { start_beat: ticks(-1.0), end_beat: ticks(2.0) })
            .unwrap_err(),
        ClipPlaybackModeError::LoopStartNegative
    );
    assert_eq!(
        Clip::new(ticks(4.0), ClipPlaybackMode::Loop { start_beat: ticks(2.0), end_beat: ticks(2.0) })
            .unwrap_err(),
        ClipPlaybackModeError::LoopEndNotAfterStart
    );
    assert_eq!(
        Clip::new(ticks(4.0), ClipPlaybackMode::Loop { start_beat: ticks(0.0), end_beat: ticks(5.0) })
            .unwrap_err(),
        ClipPlaybackModeError::LoopEndExceedsClipLength
    );
    let clip = Clip::new(ticks(4.0), ClipPlaybackMode::Loop { start_beat: 0, end_beat: ticks(4.0) })
        .unwrap();
    assert_eq!(clip.length(), ticks(4.0));
    assert_eq!(clip.playback_mode(), ClipPlaybackMode::Loop { start_beat: 0, end_beat: ticks(4.0) });
}

#[test]
fn registries_find_what_was_added() {
    let mut clips = Clips::new();
    let clip = Clip::new(ticks(4.0), ClipPlaybackMode::OneShot).unwrap();
    let clip_id = clips.add(clip);
    assert_eq!(clips.get(&clip_id).unwrap().length(), ticks(4.0));
    assert!(clips.get(&random_id()).is_none());

    let mut placements = ClipPlacements::new();
    let placement_id = placements.add(ClipPlacement::new(clip_id, ticks(8.0), ticks(2.0)).unwrap());
    let placement = placements.get(&placement_id).unwrap();
    assert_eq!(*placement.clip_id(), clip_id);
    assert_eq!(placement.end_beat(), ticks(10.0));
    assert!(placements.get(&random_id()).is_none());
}

#[test]
fn resolves_one_item_per_placement() {
    let note = ScheduledNote::new(ticks(1.0), 64, ticks(0.5)).unwrap();

    let clip = Clip::new(ticks(4.0), ClipPlaybackMode::OneShot).unwrap();
    let clip_id = *clip.id();

    let placement_a = ClipPlacement::new(clip_id, ticks(0.0), ticks(8.0)).unwrap();
    let placement_b = ClipPlacement::new(clip_id, ticks(16.0), ticks(8.0)).unwrap();

    let mut clips = Clips::new();
    clips.add(clip);

    let mut placements = ClipPlacements::new();
    let placement_a_id = placements.add(placement_a);
    let placement_b_id = placements.add(placement_b);

    let mut router = ClipRouter::new();
    router.route_note_to_clip(*note.id(), clip_id);
    router.add_placement_to_clip(clip_id, placement_a_id);
    router.add_placement_to_clip(clip_id, placement_b_id);

    let routed = router.resolve_routed_note(&note, &clips, &placements);
    assert_eq!(routed.len(), 2);
}

#[test]
fn route_note_to_clip_returns_previous_clip() {
    let note_id = random_id();
    let clip_a = random_id();
    let clip_b = random_id();

    let mut router = ClipRouter::new();
    assert!(router.route_note_to_clip(note_id, clip_a).is_none());
    assert_eq!(router.route_note_to_clip(note_id, clip_b), Some(clip_a));
    assert_eq!(router.clip_for_note(&note_id), Some(&clip_b));
}

#[test]
fn can_remove_note_and_clip_placement_routes() {
    let note_id = random_id();
    let clip_id = random_id();
    let placement_id = random_id();

    let mut router = ClipRouter::new();
    router.route_note_to_clip(note_id, clip_id);
    router.add_placement_to_clip(clip_id, placement_id);

    assert_eq!(router.unroute_note(&note_id), Some(clip_id));
    assert!(router.clip_for_note(&note_id).is_none());

    assert!(router.remove_placement_from_clip(&clip_id, &placement_id));
    assert_eq!(router.placements_for_clip(&clip_id).len(), 0);
}

#[test]
fn remove_clip_returns_removed_placements() {
    let clip_id = random_id();
    let placement_a = random_id();
    let placement_b = random_id();

    let mut router = ClipRouter::new();
    router.add_placement_to_clip(clip_id, placement_a);
    router.add_placement_to_clip(clip_id, placement_b);

    let removed = router.remove_clip(&clip_id).unwrap();
    assert_eq!(removed.len(), 2);
    assert!(removed.contains(&placement_a));
    assert!(removed.contains(&placement_b));
    assert_eq!(router.placements_for_clip(&clip_id).len(), 0);
}

#[test]
fn wrong_clip_placement_route_is_not_resolved() {
    let note = ScheduledNote::new(ticks(1.0), 64, ticks(0.5)).unwrap();

    let clip_a = Clip::new(ticks(4.0), ClipPlaybackMode::OneShot).unwrap();
    let clip_a_id = *clip_a.id();
    let clip_b = Clip::new(ticks(4.0), ClipPlaybackMode::OneShot).unwrap();
    let clip_b_id = *clip_b.id();

    let mut clips = Clips::new();
    clips.add(clip_a);
    clips.add(clip_b);

    let mismatched_placement = ClipPlacement::new(clip_b_id, ticks(0.0), ticks(8.0)).unwrap();
    let mut placements = ClipPlacements::new();
    let mismatched_placement_id = placements.add(mismatched_placement);

    let mut router = ClipRouter::new();
    router.route_note_to_clip(*note.id(), clip_a_id);
    router.add_placement_to_clip(clip_a_id, mismatched_placement_id);

    let routed = router.resolve_routed_note(&note, &clips, &placements);
    assert!(routed.is_empty());
}

#[test]
fn router_edge_cases() {
    let mut router = ClipRouter::new();
    let clip_id = random_id();
    let placement_id = random_id();
    assert_eq!(router.unroute_note(&random_id()), None);
    assert!(!router.remove_placement_from_clip(&clip_id, &placement_id));
    assert!(router.remove_clip(&clip_id).is_none());
    router.add_placement_to_clip(clip_id, placement_id);
    router.add_placement_to_clip(clip_id, placement_id);
    assert_eq!(router.placements_for_clip(&clip_id), vec![placement_id]);
    assert!(!router.remove_placement_from_clip(&clip_id, &random_id()));
    assert!(router.remove_placement_from_clip(&clip_id, &placement_id));
    assert!(router.placements_for_clip(&clip_id).is_empty());
}

#[test]
fn unrouted_or_missing_pieces_resolve_to_nothing() {
    let note = ScheduledNote::new(0, 60, ticks(1.0)).unwrap();
    let clips = Clips::new();
    let placements = ClipPlacements::new();
    let mut router = ClipRouter::new();
    assert!(router.resolve_note(&note, &clips, &placements).is_empty());
    // Routed to a clip that is not registered.
    let clip_id = random_id();
    router.route_note_to_clip(*note.id(), clip_id);
    router.add_placement_to_clip(clip_id, random_id());
    assert!(router.resolve_routed_note(&note, &clips, &placements).is_empty());
}

#[test]
fn resolved_note_carries_clip_and_placement_context() {
    let note = ScheduledNote::new(ticks(1.0), 64, ticks(0.5)).unwrap();
    let mut clips = Clips::new();
    let clip_id = clips.add(
        Clip::new(ticks(4.0), ClipPlaybackMode::Loop { start_beat: 0, end_beat: ticks(4.0) })
            .unwrap(),
    );
    let mut placements = ClipPlacements::new();
    let placement_id =
        placements.add(ClipPlacement::new(clip_id, ticks(16.0), ticks(12.0)).unwrap());
    let mut router = ClipRouter::new();
    router.route_note_to_clip(*note.id(), clip_id);
    router.add_placement_to_clip(clip_id, placement_id);

    let resolved = router.resolve_note(&note, &clips, &placements);
    assert_eq!(resolved.len(), 1);
    assert_eq!(resolved[0].placement_offset(), ticks(16.0));
    assert_eq!(resolved[0].clip_length(), ticks(4.0));
    assert_eq!(*resolved[0].note().id(), *note.id());
    assert_eq!(*resolved[0].clip().id(), clip_id);
    assert_eq!(*resolved[0].placement().id(), placement_id);

    let routed = router.resolve_routed_note(&note, &clips, &placements);
    assert_eq!(routed.len(), 1);
    assert_eq!(routed[0].clip_id(), clip_id);
    assert_eq!(routed[0].placement_id(), placement_id);
    assert_eq!(routed[0].placement_start_beat(), ticks(16.0));
    assert_eq!(routed[0].placement_length(), ticks(12.0));
    assert_eq!(routed[0].placement_end_beat(), ticks(28.0));
    assert_eq!(routed[0].clip_length(), ticks(4.0));
    assert_eq!(
        routed[0].clip_playback_mode(),
        ClipPlaybackMode::Loop { start_beat: 0, end_beat: ticks(4.0) }
    );
}

#[test]
fn arrangement_routes_every_note_in_order() {
    let note_a = ScheduledNote::new(0, 60, ticks(1.0)).unwrap();
    let note_b = ScheduledNote::new(ticks(2.0), 62, ticks(1.0)).unwrap();
    let mut clips = Clips::new();
    let clip_id = clips.add(Clip::new(ticks(4.0), ClipPlaybackMode::OneShot).unwrap());
    let mut placements = ClipPlacements::new();
    let placement_id = placements.add(ClipPlacement::new(clip_id, ticks(8.0), ticks(4.0)).unwrap());
    let mut router = ClipRouter::new();
    router.route_note_to_clip(*note_a.id(), clip_id);
    router.route_note_to_clip(*note_b.id(), clip_id);
    router.add_placement_to_clip(clip_id, placement_id);

    let notes = vec![note_a, note_b];
    let arrangement = ArrangementView::new(&notes, &clips, &placements, &router);
    let routed = arrangement.routed_notes();
    assert_eq!(routed.len(), 2);
    assert_eq!(*routed[0].note().id(), *notes[0].id());
    assert_eq!(*routed[1].note().id(), *notes[1].id());
}
