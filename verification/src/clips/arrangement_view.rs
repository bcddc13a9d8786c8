//! A borrowed, read-only view of an arrangement that resolves note, clip
//! and placement relationships before handing notes to the scheduler.
use crate::clips::clip::Clips;
use crate::clips::clip_placement::ClipPlacements;
use crate::clips::clip_router::{is_routing_of, ClipRouter, RoutedNote};
use crate::scheduler::scheduled_note::ScheduledNote;
use vstd::prelude::*;

verus! {

/// `out` holds the routed notes of every note, note by note in the order
/// of `notes`, each note's routed notes as `ClipRouter` resolves them.
pub open spec fn is_arrangement_routing(
    router: &ClipRouter,
    notes: Seq<ScheduledNote>,
    clips: &Clips,
    placements: &ClipPlacements,
    out: Seq<RoutedNote>,
) -> bool {
    exists|parts: Seq<Seq<RoutedNote>>|
        {
            &&& parts.len() == notes.len()
            &&& forall|i: int|
                0 <= i < notes.len() ==> #[trigger] is_routing_of(
                    router,
                    notes[i],
                    clips,
                    placements,
                    parts[i],
                )
            &&& out == parts.flatten()
        }
}

/// Borrowed orchestration view over notes, clips, placements and routing.
pub struct ArrangementView<'a> {
    notes: &'a [ScheduledNote],
    clips: &'a Clips,
    placements: &'a ClipPlacements,
    router: &'a ClipRouter,
}

impl<'a> ArrangementView<'a> {
    /// The notes.
    pub closed spec fn spec_notes(&self) -> Seq<ScheduledNote> {
        self.notes@
    }

    /// The clip registry.
    pub closed spec fn spec_clips(&self) -> &'a Clips {
        self.clips
    }

    /// The placement registry.
    pub closed spec fn spec_placements(&self) -> &'a ClipPlacements {
        self.placements
    }

    /// The router.
    pub closed spec fn spec_router(&self) -> &'a ClipRouter {
        self.router
    }

    /// Creates a view over the given notes, clips, placements and router.
    pub fn new(
        notes: &'a [ScheduledNote],
        clips: &'a Clips,
        placements: &'a ClipPlacements,
        router: &'a ClipRouter,
    ) -> (v: Self)
        ensures
            v.spec_notes() == notes@,
            v.spec_clips() == clips,
            v.spec_placements() == placements,
            v.spec_router() == router,
    {
        Self { notes, clips, placements, router }
    }

    /// The routed notes of every note, note by note.
    pub fn routed_notes(&'a self) -> (r: Vec<RoutedNote<'a>>)
        ensures
            is_arrangement_routing(
                self.spec_router(),
                self.spec_notes(),
                self.spec_clips(),
                self.spec_placements(),
                r@,
            ),
    {
        let mut out: Vec<RoutedNote<'a>> = Vec::new();
        let ghost mut parts: Seq<Seq<RoutedNote<'a>>> = Seq::empty();
        let n = self.notes.len();
        for i in 0..n
            invariant
                n == self.notes@.len(),
                parts.len() == i,
                forall|j: int|
                    0 <= j < i ==> #[trigger] is_routing_of(
                        self.router,
                        self.notes@[j],
                        self.clips,
                        self.placements,
                        parts[j],
                    ),
                out@ == parts.flatten(),
        {
            let mut routed = self.router.resolve_routed_note(
                &self.notes[i],
                self.clips,
                self.placements,
            );
            proof {
                parts.lemma_flatten_push(routed@);
                parts = parts.push(routed@);
            }
            out.append(&mut routed);
        }
        out
    }
}

} // verus!
