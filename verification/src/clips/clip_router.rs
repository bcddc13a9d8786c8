//! Relationships between notes, clips and placements, and the resolved
//! note records handed to the scheduler.
use crate::clips::clip::{Clip, Clips};
use crate::clips::clip_placement::{ClipPlacement, ClipPlacements};
use crate::clips::enums::ClipPlaybackMode;
use crate::scheduler::scheduled_note::ScheduledNote;
use std::collections::{HashMap, HashSet};
use vstd::prelude::*;
use vstd::std_specs::iter::IteratorSpec;

verus! {

/// Resolves note -> clip and clip -> placements relationships.
#[derive(Debug, PartialEq, Clone)]
pub struct ClipRouter {
    note_to_clip: HashMap<u128, u128>,
    clip_to_placements: HashMap<u128, HashSet<u128>>,
}

impl ClipRouter {
    /// The clip each routed note belongs to.
    pub closed spec fn spec_note_to_clip(&self) -> Map<u128, u128> {
        self.note_to_clip@
    }

    /// The placements of each clip that has any.
    pub closed spec fn spec_clip_to_placements(&self) -> Map<u128, Set<u128>> {
        self.clip_to_placements@.map_values(|s: HashSet<u128>| s@)
    }

    /// The placements of `clip_id`, empty when it has none.
    pub open spec fn spec_placements_of(&self, clip_id: u128) -> Set<u128> {
        if self.spec_clip_to_placements().contains_key(clip_id) {
            self.spec_clip_to_placements()[clip_id]
        } else {
            Set::empty()
        }
    }

    /// A router with no relationships.
    pub fn new() -> (r: Self)
        ensures
            r.spec_note_to_clip() == Map::<u128, u128>::empty(),
            r.spec_clip_to_placements() == Map::<u128, Set<u128>>::empty(),
    {
        let r = Self { note_to_clip: HashMap::new(), clip_to_placements: HashMap::new() };
        assert(r.spec_clip_to_placements() =~= Map::<u128, Set<u128>>::empty());
        r
    }

    /// Routes a note to a clip (a note belongs to at most one clip) and
    /// returns the clip it was routed to before, if any.
    pub fn route_note_to_clip(&mut self, note_id: u128, clip_id: u128) -> (r: Option<u128>)
        ensures
            final(self).spec_note_to_clip() == old(self).spec_note_to_clip().insert(
                note_id,
                clip_id,
            ),
            final(self).spec_clip_to_placements() == old(self).spec_clip_to_placements(),
            r == (if old(self).spec_note_to_clip().contains_key(note_id) {
                Some(old(self).spec_note_to_clip()[note_id])
            } else {
                None
            }),
    {
        broadcast use vstd::std_specs::hash::group_hash_axioms;

        self.note_to_clip.insert(note_id, clip_id)
    }

    /// Adds a placement to a clip (a clip may have many placements).
    pub fn add_placement_to_clip(&mut self, clip_id: u128, placement_id: u128)
        ensures
            final(self).spec_clip_to_placements() == old(self).spec_clip_to_placements().insert(
                clip_id,
                old(self).spec_placements_of(clip_id).insert(placement_id),
            ),
            final(self).spec_note_to_clip() == old(self).spec_note_to_clip(),
    {
        broadcast use vstd::std_specs::hash::group_hash_axioms;

        let ghost before = self.clip_to_placements@;
        let existing = self.clip_to_placements.remove(&clip_id);
        let mut placements = match existing {
            Some(set) => set,
            None => HashSet::new(),
        };
        placements.insert(placement_id);
        self.clip_to_placements.insert(clip_id, placements);
        assert(self.spec_clip_to_placements() =~= before.map_values(|s: HashSet<u128>| s@).insert(
            clip_id,
            (if before.contains_key(clip_id) {
                before[clip_id]@
            } else {
                Set::empty()
            }).insert(placement_id),
        ));
    }

    /// Removes a note's routing and returns the clip it was routed to, if
    /// any.
    pub fn unroute_note(&mut self, note_id: &u128) -> (r: Option<u128>)
        ensures
            final(self).spec_note_to_clip() == old(self).spec_note_to_clip().remove(*note_id),
            final(self).spec_clip_to_placements() == old(self).spec_clip_to_placements(),
            r == (if old(self).spec_note_to_clip().contains_key(*note_id) {
                Some(old(self).spec_note_to_clip()[*note_id])
            } else {
                None
            }),
    {
        broadcast use vstd::std_specs::hash::group_hash_axioms;

        self.note_to_clip.remove(note_id)
    }

    /// Removes a placement from a clip; a clip left without placements is
    /// dropped. Returns whether the placement was there.
    pub fn remove_placement_from_clip(&mut self, clip_id: &u128, placement_id: &u128) -> (r: bool)
        ensures
            r == (old(self).spec_clip_to_placements().contains_key(*clip_id) && old(
                self,
            ).spec_clip_to_placements()[*clip_id].contains(*placement_id)),
            final(self).spec_note_to_clip() == old(self).spec_note_to_clip(),
            final(self).spec_clip_to_placements() == if !old(
                self,
            ).spec_clip_to_placements().contains_key(*clip_id) {
                old(self).spec_clip_to_placements()
            } else if old(self).spec_clip_to_placements()[*clip_id].remove(
                *placement_id,
            ).is_empty() {
                old(self).spec_clip_to_placements().remove(*clip_id)
            } else {
                old(self).spec_clip_to_placements().insert(
                    *clip_id,
                    old(self).spec_clip_to_placements()[*clip_id].remove(*placement_id),
                )
            },
    {
        broadcast use vstd::std_specs::hash::group_hash_axioms;

        let ghost before = self.clip_to_placements@;
        let existing = self.clip_to_placements.remove(clip_id);
        let mut placements = match existing {
            Some(set) => set,
            None => {
                assert(self.clip_to_placements@ =~= before);
                return false;
            },
        };
        let removed = placements.remove(placement_id);
        if !placements.is_empty() {
            self.clip_to_placements.insert(*clip_id, placements);
            assert(self.spec_clip_to_placements() =~= before.map_values(
                |s: HashSet<u128>| s@,
            ).insert(*clip_id, before[*clip_id]@.remove(*placement_id)));
        } else {
            assert(self.spec_clip_to_placements() =~= before.map_values(
                |s: HashSet<u128>| s@,
            ).remove(*clip_id));
        }
        removed
    }

    /// Removes every placement of a clip and returns them, if it had any.
    pub fn remove_clip(&mut self, clip_id: &u128) -> (r: Option<HashSet<u128>>)
        ensures
            final(self).spec_clip_to_placements() == old(self).spec_clip_to_placements().remove(
                *clip_id,
            ),
            final(self).spec_note_to_clip() == old(self).spec_note_to_clip(),
            match r {
                Some(s) => old(self).spec_clip_to_placements().contains_key(*clip_id) && s@ == old(
                    self,
                ).spec_clip_to_placements()[*clip_id],
                None => !old(self).spec_clip_to_placements().contains_key(*clip_id),
            },
    {
        broadcast use vstd::std_specs::hash::group_hash_axioms;

        let ghost before = self.clip_to_placements@;
        let r = self.clip_to_placements.remove(clip_id);
        assert(self.spec_clip_to_placements() =~= before.map_values(|s: HashSet<u128>| s@).remove(
            *clip_id,
        ));
        r
    }

    /// The clip a note is routed to, if any.
    pub fn clip_for_note(&self, note_id: &u128) -> (r: Option<&u128>)
        ensures
            match r {
                Some(c) => self.spec_note_to_clip().contains_key(*note_id) && *c
                    == self.spec_note_to_clip()[*note_id],
                None => !self.spec_note_to_clip().contains_key(*note_id),
            },
    {
        broadcast use vstd::std_specs::hash::group_hash_axioms;

        self.note_to_clip.get(note_id)
    }

    /// The placements of a clip, each once, in no particular order; empty
    /// when the clip has none.
    pub fn placements_for_clip(&self, clip_id: &u128) -> (r: Vec<u128>)
        ensures
            r@.no_duplicates(),
            r@.to_set() == self.spec_placements_of(*clip_id),
    {
        broadcast use vstd::std_specs::hash::group_hash_axioms;

        let mut out: Vec<u128> = Vec::new();
        match self.clip_to_placements.get(clip_id) {
            None => {
                assert(out@.to_set() =~= Set::<u128>::empty());
            },
            Some(placements) => {
                let ghost keys = vstd::std_specs::hash::spec_hash_keys_iter(
                    placements,
                ).remaining().unref();
                for p in it: placements.iter()
                    invariant
                        it.seq().unref() == keys,
                        out@ == keys.take(it.index()),
                {
                    out.push(*p);
                    assert(keys.take(it.index() + 1) == keys.take(it.index()).push(*p));
                }
                assert(out@ == keys);
            },
        }
        out
    }

    /// Resolves a note to its clip and to each placement of that clip that
    /// is registered and belongs to the clip, each once, in no particular
    /// order. Empty when the note is not routed or its clip is not
    /// registered.
    pub fn resolve_note<'a>(
        &'a self,
        note: &'a ScheduledNote,
        clips: &'a Clips,
        placements: &'a ClipPlacements,
    ) -> (r: Vec<ResolvedClipNote<'a>>)
        ensures
            is_resolution_of(self, *note, clips, placements, r@),
    {
        let ghost note_id = note.spec_id();
        let clip_id = match self.clip_for_note(note.id()) {
            Some(c) => c,
            None => {
                let none: Vec<ResolvedClipNote<'a>> = Vec::new();
                assert(placement_ids_of(none@).to_set() =~= resolved_placements(
                    self,
                    note_id,
                    clips,
                    placements,
                ));
                return none;
            },
        };
        let clip = match clips.get(clip_id) {
            Some(c) => c,
            None => {
                let none: Vec<ResolvedClipNote<'a>> = Vec::new();
                assert(placement_ids_of(none@).to_set() =~= resolved_placements(
                    self,
                    note_id,
                    clips,
                    placements,
                ));
                return none;
            },
        };
        let ids = self.placements_for_clip(clip_id);
        let ghost wanted = resolved_placements(self, note_id, clips, placements);
        let mut out: Vec<ResolvedClipNote<'a>> = Vec::new();
        let n = ids.len();
        for i in 0..n
            invariant
                n == ids@.len(),
                ids@.no_duplicates(),
                ids@.to_set() == self.spec_placements_of(*clip_id),
                self.spec_note_to_clip().contains_key(note_id),
                *clip_id == self.spec_note_to_clip()[note_id],
                clips.spec_clips().contains_key(*clip_id),
                *clip == clips.spec_clips()[*clip_id],
                wanted == resolved_placements(self, note_id, clips, placements),
                placement_ids_of(out@).no_duplicates(),
                placement_ids_of(out@).to_set() == wanted.intersect(ids@.take(i as int).to_set()),
                forall|j: int|
                    0 <= j < out@.len() ==> #[trigger] resolution_entry_ok(
                        *note,
                        clips,
                        placements,
                        *clip_id,
                        out@[j],
                    ),
        {
            let pid = ids[i];
            let ghost taken = ids@.take(i as int);
            proof {
                assert(ids@.take(i + 1) == taken.push(pid));
                taken.lemma_push_to_set_commute(pid);
                assert(ids@.take(i + 1).to_set() == taken.to_set().insert(pid));
                assert(!taken.contains(pid)) by {
                    if taken.contains(pid) {
                        let m = choose|m: int| 0 <= m < taken.len() && taken[m] == pid;
                        assert(ids@[m] == ids@[i as int]);
                    }
                }
            }
            match placements.get(&pid) {
                Some(placement) => {
                    if *placement.clip_id() == *clip_id {
                        let ghost before = out@;
                        proof {
                            assert(ids@.to_set().contains(pid)) by {
                                assert(ids@[i as int] == pid);
                            }
                            assert(wanted.contains(pid));
                        }
                        out.push(ResolvedClipNote { note, clip, placement });
                        proof {
                            let pb = placement_ids_of(before);
                            let po = placement_ids_of(out@);
                            assert(po =~= pb.push(pid));
                            pb.lemma_push_to_set_commute(pid);
                            assert(po.to_set() == pb.to_set().insert(pid));
                            assert(po.to_set() =~= wanted.intersect(
                                ids@.take(i + 1).to_set(),
                            ));
                            assert(!pb.contains(pid)) by {
                                if pb.contains(pid) {
                                    assert(pb.to_set().contains(pid));
                                }
                            }
                            assert(po.no_duplicates()) by {
                                assert forall|a: int, b: int|
                                    0 <= a < po.len() && 0 <= b < po.len() && a != b implies po[a]
                                    != po[b] by {
                                    if a < pb.len() && b < pb.len() {
                                        assert(pb[a] == po[a] && pb[b] == po[b]);
                                    } else if a < pb.len() {
                                        assert(pb[a] == po[a]);
                                    } else if b < pb.len() {
                                        assert(pb[b] == po[b]);
                                    }
                                }
                            }
                        }
                    } else {
                        proof {
                            assert(!wanted.contains(pid));
                            assert(placement_ids_of(out@).to_set() =~= wanted.intersect(
                                ids@.take(i + 1).to_set(),
                            ));
                        }
                    }
                },
                None => {
                    proof {
                        assert(!wanted.contains(pid));
                        assert(placement_ids_of(out@).to_set() =~= wanted.intersect(
                            ids@.take(i + 1).to_set(),
                        ));
                    }
                },
            }
        }
        proof {
            assert(ids@.take(n as int) == ids@);
            assert(placement_ids_of(out@).to_set() =~= wanted);
        }
        out
    }

    /// Resolves a note as `resolve_note` does and turns each resolution
    /// into a `RoutedNote`.
    pub fn resolve_routed_note<'a>(
        &'a self,
        note: &'a ScheduledNote,
        clips: &'a Clips,
        placements: &'a ClipPlacements,
    ) -> (r: Vec<RoutedNote<'a>>)
        ensures
            is_routing_of(self, *note, clips, placements, r@),
    {
        let resolved = self.resolve_note(note, clips, placements);
        let mut out: Vec<RoutedNote<'a>> = Vec::new();
        let n = resolved.len();
        for i in 0..n
            invariant
                n == resolved@.len(),
                out@ == resolved@.take(i as int).map_values(
                    |x: ResolvedClipNote<'a>| routed_from_resolved(x),
                ),
        {
            out.push(RoutedNote::from(resolved[i]));
            assert(resolved@.take(i + 1) == resolved@.take(i as int).push(resolved@[i as int]));
        }
        assert(resolved@.take(n as int) == resolved@);
        proof {
            assert(routed_placement_ids_of(out@) =~= placement_ids_of(resolved@));
        }
        out
    }
}

/// The placement identities of a list of resolutions.
pub open spec fn placement_ids_of(s: Seq<ResolvedClipNote>) -> Seq<u128> {
    s.map_values(|x: ResolvedClipNote| x.placement.spec_id())
}

/// The placement identities of a list of routed notes.
pub open spec fn routed_placement_ids_of(s: Seq<RoutedNote>) -> Seq<u128> {
    s.map_values(|x: RoutedNote| x.placement_id)
}

/// The placements a note resolves to: the placements of the note's clip
/// that are registered and belong to that clip; none when the note is not
/// routed or its clip is not registered.
pub open spec fn resolved_placements(
    router: &ClipRouter,
    note_id: u128,
    clips: &Clips,
    placements: &ClipPlacements,
) -> Set<u128> {
    if router.spec_note_to_clip().contains_key(note_id) && clips.spec_clips().contains_key(
        router.spec_note_to_clip()[note_id],
    ) {
        let clip_id = router.spec_note_to_clip()[note_id];
        router.spec_placements_of(clip_id).filter(
            |p: u128|
                placements.spec_placements().contains_key(p)
                    && placements.spec_placements()[p].spec_clip_id() == clip_id,
        )
    } else {
        Set::empty()
    }
}

/// One resolution of `note` to clip `clip_id`: the note, the registered
/// clip, and the registered placement under the resolution's identity.
pub open spec fn resolution_entry_ok(
    note: ScheduledNote,
    clips: &Clips,
    placements: &ClipPlacements,
    clip_id: u128,
    entry: ResolvedClipNote,
) -> bool {
    &&& *entry.note == note
    &&& *entry.clip == clips.spec_clips()[clip_id]
    &&& placements.spec_placements().contains_key(entry.placement.spec_id())
    &&& *entry.placement == placements.spec_placements()[entry.placement.spec_id()]
}

/// `out` resolves `note`: one entry per resolved placement, each once.
pub open spec fn is_resolution_of(
    router: &ClipRouter,
    note: ScheduledNote,
    clips: &Clips,
    placements: &ClipPlacements,
    out: Seq<ResolvedClipNote>,
) -> bool {
    &&& placement_ids_of(out).no_duplicates()
    &&& placement_ids_of(out).to_set() == resolved_placements(
        router,
        note.spec_id(),
        clips,
        placements,
    )
    &&& forall|i: int|
        0 <= i < out.len() ==> #[trigger] resolution_entry_ok(
            note,
            clips,
            placements,
            router.spec_note_to_clip()[note.spec_id()],
            out[i],
        )
}

/// `out` holds the routed notes of `note`: one per resolved placement, each
/// once, made from the note, its clip and that placement.
pub open spec fn is_routing_of(
    router: &ClipRouter,
    note: ScheduledNote,
    clips: &Clips,
    placements: &ClipPlacements,
    out: Seq<RoutedNote>,
) -> bool {
    exists|resolved: Seq<ResolvedClipNote>|
        {
            &&& is_resolution_of(router, note, clips, placements, resolved)
            &&& out == resolved.map_values(|x: ResolvedClipNote| routed_from_resolved(x))
        }
}

/// A note resolved against one clip and one placement of that clip.
#[derive(Debug, Clone, Copy)]
pub struct ResolvedClipNote<'a> {
    pub note: &'a ScheduledNote,
    pub clip: &'a Clip,
    pub placement: &'a ClipPlacement,
}

impl<'a> ResolvedClipNote<'a> {
    /// The note.
    pub fn note(&self) -> (r: &'a ScheduledNote)
        ensures
            r == self.note,
    {
        self.note
    }

    /// The clip.
    pub fn clip(&self) -> (r: &'a Clip)
        ensures
            r == self.clip,
    {
        self.clip
    }

    /// The placement.
    pub fn placement(&self) -> (r: &'a ClipPlacement)
        ensures
            r == self.placement,
    {
        self.placement
    }

    /// The placement's global start beat (ticks).
    pub fn placement_offset(&self) -> (r: i64)
        ensures
            r == self.placement.spec_start_beat(),
    {
        self.placement.start_beat()
    }

    /// The clip's length (ticks).
    pub fn clip_length(&self) -> (r: i64)
        ensures
            r == self.clip.spec_length(),
    {
        self.clip.length()
    }

    /// The clip's playback mode.
    pub fn clip_playback_mode(&self) -> (r: ClipPlaybackMode)
        ensures
            r == self.clip.spec_playback_mode(),
    {
        self.clip.playback_mode()
    }
}

/// Scheduling input: a note with the identities, placement range, clip
/// length and playback mode of the placement it plays in.
#[derive(Debug, Clone, Copy)]
pub struct RoutedNote<'a> {
    pub note: &'a ScheduledNote,
    pub clip_id: u128,
    pub placement_id: u128,
    pub placement_start_beat: i64,
    pub placement_length: i64,
    pub clip_length: i64,
    pub clip_playback_mode: ClipPlaybackMode,
}

/// The routed note made from a resolved note.
pub open spec fn routed_from_resolved<'a>(value: ResolvedClipNote<'a>) -> RoutedNote<'a> {
    RoutedNote {
        note: value.note,
        clip_id: value.clip.spec_id(),
        placement_id: value.placement.spec_id(),
        placement_start_beat: value.placement.spec_start_beat(),
        placement_length: value.placement.spec_length(),
        clip_length: value.clip.spec_length(),
        clip_playback_mode: value.clip.spec_playback_mode(),
    }
}

impl<'a> RoutedNote<'a> {
    /// The note.
    pub fn note(&self) -> (r: &'a ScheduledNote)
        ensures
            r == self.note,
    {
        self.note
    }

    /// The clip's identity.
    pub fn clip_id(&self) -> (r: u128)
        ensures
            r == self.clip_id,
    {
        self.clip_id
    }

    /// The placement's identity.
    pub fn placement_id(&self) -> (r: u128)
        ensures
            r == self.placement_id,
    {
        self.placement_id
    }

    /// The placement's global start beat (ticks).
    pub fn placement_start_beat(&self) -> (r: i64)
        ensures
            r == self.placement_start_beat,
    {
        self.placement_start_beat
    }

    /// The placement's length (ticks).
    pub fn placement_length(&self) -> (r: i64)
        ensures
            r == self.placement_length,
    {
        self.placement_length
    }

    /// The placement's global end beat (ticks): start plus length.
    pub fn placement_end_beat(&self) -> (r: i64)
        requires
            i64::MIN <= self.placement_start_beat + self.placement_length <= i64::MAX,
        ensures
            r == self.placement_start_beat + self.placement_length,
    {
        self.placement_start_beat + self.placement_length
    }

    /// The clip's length (ticks).
    pub fn clip_length(&self) -> (r: i64)
        ensures
            r == self.clip_length,
    {
        self.clip_length
    }

    /// The clip's playback mode.
    pub fn clip_playback_mode(&self) -> (r: ClipPlaybackMode)
        ensures
            r == self.clip_playback_mode,
    {
        self.clip_playback_mode
    }
}

impl<'a> From<ResolvedClipNote<'a>> for RoutedNote<'a> {
    /// Copies the identities, placement range, clip length and playback
    /// mode out of a resolved note.
    fn from(value: ResolvedClipNote<'a>) -> (r: Self) {
        RoutedNote {
            note: value.note,
            clip_id: *value.clip.id(),
            placement_id: *value.placement.id(),
            placement_start_beat: value.placement.start_beat(),
            placement_length: value.placement.length(),
            clip_length: value.clip.length(),
            clip_playback_mode: value.clip.playback_mode(),
        }
    }
}

impl<'a> vstd::std_specs::convert::FromSpecImpl<ResolvedClipNote<'a>> for RoutedNote<'a> {
    open spec fn obeys_from_spec() -> bool {
        true
    }

    open spec fn from_spec(v: ResolvedClipNote<'a>) -> Self {
        routed_from_resolved(v)
    }
}

} // verus!
