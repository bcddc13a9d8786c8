//! Lookahead window scheduling.
//!
//! Each call of `advance_window` covers the beats from just after the
//! scheduler's cursor (from the transport's beat itself, at first and while
//! rewinding) up to and including the transport's beat plus the lookahead,
//! so that consecutive windows emit every edge once. It materializes the On
//! and Off edges of the routed notes that fall inside that window and inside
//! their placement, and returns them sorted by beat, then `Off` before `On`,
//! then note identity. In a looping placement a note that runs past the end of
//! its loop iteration is released at that end, and a release that falls
//! exactly on the end of the placement is still emitted.
use crate::clips::clip_router::RoutedNote;
use crate::clips::enums::ClipPlaybackMode;
use crate::scheduler::enums::{NoteState, SchedulerError};
use crate::scheduler::occurrence::NoteOccurrenceKey;
use crate::scheduler::scheduled_event::ScheduledEvent;
use crate::scheduler::scheduled_note::ScheduledNote;
use crate::sorting::{sort_by_key, sorted_by_key};
use crate::tempo::{Tempo, TICKS_PER_BEAT};
use crate::transport::{Transport, TransportState};
use vstd::prelude::*;

verus! {

/// Lookahead of a new scheduler: four beats.
pub const DEFAULT_LOOKAHEAD: i64 = 4 * TICKS_PER_BEAT;

/// An edge at global beat `beat` is emitted when it lies in the window
/// `[window_start, window_end)` and in the placement
/// `[placement_start, placement_end)`.
pub open spec fn edge_emitted(
    beat: int,
    window_start: int,
    window_end: int,
    placement_start: int,
    placement_end: int,
) -> bool {
    &&& window_start <= beat < window_end
    &&& placement_start <= beat < placement_end
}

/// An Off edge at global beat `beat` is emitted when it lies in the window
/// and in the placement; with `release_at_end`, an Off exactly at the
/// placement end is emitted too, so that a note cut at the end of a looping
/// placement is released.
pub open spec fn off_edge_emitted(
    beat: int,
    window_start: int,
    window_end: int,
    placement_start: int,
    placement_end: int,
    release_at_end: bool,
) -> bool {
    &&& window_start <= beat < window_end
    &&& placement_start <= beat
    &&& if release_at_end {
        beat <= placement_end
    } else {
        beat < placement_end
    }
}

/// The emitted edges of one note occurrence whose On edge is at global beat
/// `on` and whose Off edge is at `off`: the On event first, if emitted,
/// then the Off event, if emitted.
pub open spec fn occurrence_events<'a>(
    note: &'a ScheduledNote,
    key: NoteOccurrenceKey,
    on: int,
    off: int,
    window_start: int,
    window_end: int,
    placement_start: int,
    placement_end: int,
    release_at_end: bool,
) -> Seq<ScheduledEvent<'a>> {
    (if edge_emitted(on, window_start, window_end, placement_start, placement_end) {
        seq![
            ScheduledEvent {
                note,
                state: NoteState::On,
                scheduled_beat: on as i64,
                occurrence_key: key,
            },
        ]
    } else {
        Seq::empty()
    }) + (if off_edge_emitted(
        off,
        window_start,
        window_end,
        placement_start,
        placement_end,
        release_at_end,
    ) {
        seq![
            ScheduledEvent {
                note,
                state: NoteState::Off,
                scheduled_beat: off as i64,
                occurrence_key: key,
            },
        ]
    } else {
        Seq::empty()
    })
}

/// The key of the `iteration`-th occurrence of a routed note.
pub open spec fn routed_key(routed: RoutedNote, iteration: u64) -> NoteOccurrenceKey {
    NoteOccurrenceKey {
        note_id: routed.note.spec_id(),
        placement_id: routed.placement_id,
        loop_iteration: iteration,
    }
}

/// A one-shot clip plays the note once, offset by the placement start.
pub open spec fn one_shot_events<'a>(
    routed: RoutedNote<'a>,
    window_start: int,
    window_end: int,
) -> Seq<ScheduledEvent<'a>> {
    let placement_start = routed.placement_start_beat as int;
    occurrence_events(
        routed.note,
        routed_key(routed, 0),
        placement_start + routed.note.spec_start_beat(),
        placement_start + routed.note.spec_end_beat(),
        window_start,
        window_end,
        placement_start,
        placement_start + routed.placement_length,
        false,
    )
}

/// Loop iterations examined for a placement: the placement length over the
/// loop length rounded up (zero for a placement length that is not
/// positive), plus one.
pub open spec fn loop_iteration_count(placement_length: int, loop_length: int) -> nat {
    if placement_length <= 0 {
        1
    } else {
        ((placement_length + loop_length - 1) / loop_length + 1) as nat
    }
}

/// The Off beat of a looped note in the iteration starting at
/// `iteration_start`: the note's end relative to the loop start, cut at the
/// end of the iteration.
pub open spec fn loop_off_beat(
    iteration_start: int,
    note_end: int,
    loop_start: int,
    loop_length: int,
) -> int {
    let off = iteration_start + (note_end - loop_start);
    let iteration_end = iteration_start + loop_length;
    if off <= iteration_end {
        off
    } else {
        iteration_end
    }
}

/// The emitted edges of the first `count` loop iterations, iteration by
/// iteration. Iteration `i` starts `i` loop lengths after the placement
/// start; the note is taken relative to the loop start, its Off cut at the
/// end of the iteration, and an Off at the placement end is released.
pub open spec fn loop_events_upto<'a>(
    routed: RoutedNote<'a>,
    window_start: int,
    window_end: int,
    loop_start: int,
    loop_length: int,
    count: nat,
) -> Seq<ScheduledEvent<'a>>
    decreases count,
{
    if count == 0 {
        Seq::empty()
    } else {
        let iteration = count - 1;
        let placement_start = routed.placement_start_beat as int;
        let offset = iteration * loop_length;
        loop_events_upto(
            routed,
            window_start,
            window_end,
            loop_start,
            loop_length,
            (count - 1) as nat,
        ) + occurrence_events(
            routed.note,
            routed_key(routed, iteration as u64),
            placement_start + offset + (routed.note.spec_start_beat() - loop_start),
            loop_off_beat(
                placement_start + offset,
                routed.note.spec_end_beat() as int,
                loop_start,
                loop_length,
            ),
            window_start,
            window_end,
            placement_start,
            placement_start + routed.placement_length,
            true,
        )
    }
}

/// A looping clip repeats the loop range across the placement; a loop whose
/// end is not after its start plays nothing.
pub open spec fn loop_events<'a>(
    routed: RoutedNote<'a>,
    window_start: int,
    window_end: int,
    loop_start: int,
    loop_end: int,
) -> Seq<ScheduledEvent<'a>> {
    let loop_length = loop_end - loop_start;
    if loop_length <= 0 {
        Seq::empty()
    } else {
        loop_events_upto(
            routed,
            window_start,
            window_end,
            loop_start,
            loop_length,
            loop_iteration_count(routed.placement_length as int, loop_length),
        )
    }
}

/// The emitted edges of one routed note.
pub open spec fn routed_note_events<'a>(
    routed: RoutedNote<'a>,
    window_start: int,
    window_end: int,
) -> Seq<ScheduledEvent<'a>> {
    match routed.clip_playback_mode {
        ClipPlaybackMode::OneShot => one_shot_events(routed, window_start, window_end),
        ClipPlaybackMode::Loop { start_beat, end_beat } => loop_events(
            routed,
            window_start,
            window_end,
            start_beat as int,
            end_beat as int,
        ),
    }
}

/// The emitted edges of all routed notes, note by note, before sorting.
pub open spec fn window_events<'a>(
    routed_notes: Seq<RoutedNote<'a>>,
    window_start: int,
    window_end: int,
) -> Seq<ScheduledEvent<'a>>
    decreases routed_notes.len(),
{
    if routed_notes.len() == 0 {
        Seq::empty()
    } else {
        window_events(routed_notes.drop_last(), window_start, window_end) + routed_note_events(
            routed_notes.last(),
            window_start,
            window_end,
        )
    }
}

/// The window start: the transport's beat while rewinding or before the
/// first window, else the cursor.
pub open spec fn window_start_of(
    cursor: Option<i64>,
    state: TransportState,
    current_beat: i64,
) -> int {
    if state == TransportState::Rewinding {
        current_beat as int
    } else {
        match cursor {
            Some(c) => c as int,
            None => current_beat as int,
        }
    }
}

/// The first tick a window covers. A window that continues from the cursor
/// starts just after it, since the previous window covered the cursor
/// itself; a fresh window (before the first one, or while rewinding)
/// includes its start. Every window includes its end.
pub open spec fn window_first_tick(
    cursor: Option<i64>,
    state: TransportState,
    window_start: int,
) -> int {
    if state != TransportState::Rewinding && cursor is Some {
        window_start + 1
    } else {
        window_start
    }
}

/// The error a window is refused with, if any.
pub open spec fn window_error(window_start: int, window_end: int) -> Option<SchedulerError> {
    if window_start < 0 {
        Some(SchedulerError::InvalidBeatStart)
    } else if window_end < 0 || window_end > i64::MAX {
        Some(SchedulerError::InvalidBeatEnd)
    } else if window_start > window_end {
        Some(SchedulerError::InvalidNegativeWindow)
    } else {
        None
    }
}

/// Splitting a window at `b` splits the edges of one occurrence: each edge
/// falls in exactly one of the two halves.
proof fn lemma_occurrence_events_split<'a>(
    note: &'a ScheduledNote,
    key: NoteOccurrenceKey,
    on: int,
    off: int,
    a: int,
    b: int,
    c: int,
    placement_start: int,
    placement_end: int,
    release_at_end: bool,
)
    requires
        a <= b <= c,
    ensures
        occurrence_events(
            note,
            key,
            on,
            off,
            a,
            c,
            placement_start,
            placement_end,
            release_at_end,
        ).to_multiset() == occurrence_events(
            note,
            key,
            on,
            off,
            a,
            b,
            placement_start,
            placement_end,
            release_at_end,
        ).to_multiset().add(
            occurrence_events(
                note,
                key,
                on,
                off,
                b,
                c,
                placement_start,
                placement_end,
                release_at_end,
            ).to_multiset(),
        ),
{
    broadcast use vstd::seq_lib::lemma_multiset_commutative;
    broadcast use vstd::seq_lib::group_to_multiset_ensures;
    broadcast use vstd::multiset::group_multiset_axioms;

    let on_event = ScheduledEvent {
        note,
        state: NoteState::On,
        scheduled_beat: on as i64,
        occurrence_key: key,
    };
    let off_event = ScheduledEvent {
        note,
        state: NoteState::Off,
        scheduled_beat: off as i64,
        occurrence_key: key,
    };
    let on_part = |ws: int, we: int|
        if edge_emitted(on, ws, we, placement_start, placement_end) {
            seq![on_event]
        } else {
            Seq::<ScheduledEvent<'a>>::empty()
        };
    let off_part = |ws: int, we: int|
        if off_edge_emitted(off, ws, we, placement_start, placement_end, release_at_end) {
            seq![off_event]
        } else {
            Seq::<ScheduledEvent<'a>>::empty()
        };
    assert(seq![on_event].to_multiset() =~= vstd::multiset::Multiset::singleton(on_event)) by {
        assert(seq![on_event] == Seq::<ScheduledEvent<'a>>::empty().push(on_event));
    }
    assert(seq![off_event].to_multiset() =~= vstd::multiset::Multiset::singleton(off_event)) by {
        assert(seq![off_event] == Seq::<ScheduledEvent<'a>>::empty().push(off_event));
    }
    assert(occurrence_events(
        note,
        key,
        on,
        off,
        a,
        c,
        placement_start,
        placement_end,
        release_at_end,
    ) == on_part(a, c) + off_part(a, c));
    assert(occurrence_events(
        note,
        key,
        on,
        off,
        a,
        b,
        placement_start,
        placement_end,
        release_at_end,
    ) == on_part(a, b) + off_part(a, b));
    assert(occurrence_events(
        note,
        key,
        on,
        off,
        b,
        c,
        placement_start,
        placement_end,
        release_at_end,
    ) == on_part(b, c) + off_part(b, c));
}

/// Splitting a window at `b` splits the edges of the first `count` loop
/// iterations.
proof fn lemma_loop_events_upto_split<'a>(
    routed: RoutedNote<'a>,
    a: int,
    b: int,
    c: int,
    loop_start: int,
    loop_length: int,
    count: nat,
)
    requires
        a <= b <= c,
    ensures
        loop_events_upto(routed, a, c, loop_start, loop_length, count).to_multiset()
            == loop_events_upto(routed, a, b, loop_start, loop_length, count).to_multiset().add(
            loop_events_upto(routed, b, c, loop_start, loop_length, count).to_multiset(),
        ),
    decreases count,
{
    broadcast use vstd::seq_lib::lemma_multiset_commutative;
    broadcast use vstd::seq_lib::group_to_multiset_ensures;
    broadcast use vstd::multiset::group_multiset_axioms;

    if count > 0 {
        let iteration = count - 1;
        let placement_start = routed.placement_start_beat as int;
        let offset = iteration * loop_length;
        let on = placement_start + offset + (routed.note.spec_start_beat() - loop_start);
        let off = loop_off_beat(
            placement_start + offset,
            routed.note.spec_end_beat() as int,
            loop_start,
            loop_length,
        );
        let key = routed_key(routed, iteration as u64);
        let placement_end = placement_start + routed.placement_length;
        lemma_loop_events_upto_split(routed, a, b, c, loop_start, loop_length, (count - 1) as nat);
        lemma_occurrence_events_split(
            routed.note,
            key,
            on,
            off,
            a,
            b,
            c,
            placement_start,
            placement_end,
            true,
        );
        let earlier = |ws: int, we: int|
            loop_events_upto(routed, ws, we, loop_start, loop_length, (count - 1) as nat);
        let last = |ws: int, we: int|
            occurrence_events(
                routed.note,
                key,
                on,
                off,
                ws,
                we,
                placement_start,
                placement_end,
                true,
            );
        assert(loop_events_upto(routed, a, c, loop_start, loop_length, count) == earlier(a, c)
            + last(a, c));
        assert(loop_events_upto(routed, a, b, loop_start, loop_length, count) == earlier(a, b)
            + last(a, b));
        assert(loop_events_upto(routed, b, c, loop_start, loop_length, count) == earlier(b, c)
            + last(b, c));
        assert(earlier(a, c).to_multiset().add(last(a, c).to_multiset()) =~= earlier(
            a,
            b,
        ).to_multiset().add(last(a, b).to_multiset()).add(
            earlier(b, c).to_multiset().add(last(b, c).to_multiset()),
        ));
    } else {
        assert(Seq::<ScheduledEvent<'a>>::empty().to_multiset() =~= vstd::multiset::Multiset::empty());
    }
}

/// Splitting a window at `b` splits the edges of one routed note.
proof fn lemma_routed_note_events_split<'a>(routed: RoutedNote<'a>, a: int, b: int, c: int)
    requires
        a <= b <= c,
    ensures
        routed_note_events(routed, a, c).to_multiset() == routed_note_events(
            routed,
            a,
            b,
        ).to_multiset().add(routed_note_events(routed, b, c).to_multiset()),
{
    broadcast use vstd::multiset::group_multiset_axioms;
    broadcast use vstd::seq_lib::group_to_multiset_ensures;

    match routed.clip_playback_mode {
        ClipPlaybackMode::OneShot => {
            let placement_start = routed.placement_start_beat as int;
            lemma_occurrence_events_split(
                routed.note,
                routed_key(routed, 0),
                placement_start + routed.note.spec_start_beat(),
                placement_start + routed.note.spec_end_beat(),
                a,
                b,
                c,
                placement_start,
                placement_start + routed.placement_length,
                false,
            );
        },
        ClipPlaybackMode::Loop { start_beat, end_beat } => {
            let loop_length = end_beat - start_beat;
            if loop_length > 0 {
                lemma_loop_events_upto_split(
                    routed,
                    a,
                    b,
                    c,
                    start_beat as int,
                    loop_length,
                    loop_iteration_count(routed.placement_length as int, loop_length),
                );
            } else {
                assert(Seq::<ScheduledEvent<'a>>::empty().to_multiset() =~= vstd::multiset::Multiset::empty());
            }
        },
    }
}

/// Law: two consecutive windows `[a, b)` and `[b, c)` together emit exactly
/// the edges of the window `[a, c)`: no edge is lost at the boundary and
/// none is emitted twice.
pub proof fn law_consecutive_windows_partition<'a>(
    routed_notes: Seq<RoutedNote<'a>>,
    a: int,
    b: int,
    c: int,
)
    requires
        a <= b <= c,
    ensures
        window_events(routed_notes, a, c).to_multiset() == window_events(
            routed_notes,
            a,
            b,
        ).to_multiset().add(window_events(routed_notes, b, c).to_multiset()),
    decreases routed_notes.len(),
{
    broadcast use vstd::seq_lib::lemma_multiset_commutative;
    broadcast use vstd::seq_lib::group_to_multiset_ensures;
    broadcast use vstd::multiset::group_multiset_axioms;

    if routed_notes.len() > 0 {
        law_consecutive_windows_partition(routed_notes.drop_last(), a, b, c);
        lemma_routed_note_events_split(routed_notes.last(), a, b, c);
    } else {
        assert(Seq::<ScheduledEvent<'a>>::empty().to_multiset() =~= vstd::multiset::Multiset::empty());
    }
}

/// The edges of loop iteration `k` of a routed note, as the loop expansion
/// produces them.
spec fn iteration_events<'a>(
    routed: RoutedNote<'a>,
    window_start: int,
    window_end: int,
    loop_start: int,
    loop_length: int,
    k: nat,
) -> Seq<ScheduledEvent<'a>> {
    let placement_start = routed.placement_start_beat as int;
    occurrence_events(
        routed.note,
        routed_key(routed, k as u64),
        placement_start + k * loop_length + (routed.note.spec_start_beat() - loop_start),
        loop_off_beat(
            placement_start + k * loop_length,
            routed.note.spec_end_beat() as int,
            loop_start,
            loop_length,
        ),
        window_start,
        window_end,
        placement_start,
        placement_start + routed.placement_length,
        true,
    )
}

/// The first `m` iterations' expansion holds every edge of iteration `k`,
/// for `k < m`.
proof fn lemma_loop_upto_has_iteration<'a>(
    routed: RoutedNote<'a>,
    window_start: int,
    window_end: int,
    loop_start: int,
    loop_length: int,
    m: nat,
    k: nat,
)
    requires
        k < m,
    ensures
        forall|e: ScheduledEvent<'a>|
            #[trigger] iteration_events(
                routed,
                window_start,
                window_end,
                loop_start,
                loop_length,
                k,
            ).contains(e) ==> loop_events_upto(
                routed,
                window_start,
                window_end,
                loop_start,
                loop_length,
                m,
            ).contains(e),
    decreases m,
{
    let prefix = loop_events_upto(
        routed,
        window_start,
        window_end,
        loop_start,
        loop_length,
        (m - 1) as nat,
    );
    let last = iteration_events(
        routed,
        window_start,
        window_end,
        loop_start,
        loop_length,
        (m - 1) as nat,
    );
    assert(loop_events_upto(routed, window_start, window_end, loop_start, loop_length, m)
        == prefix + last);
    if k + 1 < m {
        lemma_loop_upto_has_iteration(
            routed,
            window_start,
            window_end,
            loop_start,
            loop_length,
            (m - 1) as nat,
            k,
        );
        assert forall|e: ScheduledEvent<'a>|
            #[trigger] iteration_events(
                routed,
                window_start,
                window_end,
                loop_start,
                loop_length,
                k,
            ).contains(e) implies (prefix + last).contains(e) by {
            let i = choose|i: int| 0 <= i < prefix.len() && prefix[i] == e;
            assert((prefix + last)[i] == e);
        }
    } else {
        assert forall|e: ScheduledEvent<'a>|
            #[trigger] iteration_events(
                routed,
                window_start,
                window_end,
                loop_start,
                loop_length,
                k,
            ).contains(e) implies (prefix + last).contains(e) by {
            let i = choose|i: int| 0 <= i < last.len() && last[i] == e;
            assert((prefix + last)[prefix.len() + i] == e);
        }
    }
}

/// Every edge of the first `m` iterations' expansion belongs to the
/// iteration its occurrence key names, which is below `m`.
proof fn lemma_loop_upto_elements<'a>(
    routed: RoutedNote<'a>,
    window_start: int,
    window_end: int,
    loop_start: int,
    loop_length: int,
    m: nat,
)
    requires
        m <= 0x1_0000_0000_0000_0000,
    ensures
        forall|i: int|
            0 <= i < loop_events_upto(
                routed,
                window_start,
                window_end,
                loop_start,
                loop_length,
                m,
            ).len() ==> {
                let e = #[trigger] loop_events_upto(
                    routed,
                    window_start,
                    window_end,
                    loop_start,
                    loop_length,
                    m,
                )[i];
                &&& e.occurrence_key.loop_iteration < m
                &&& iteration_events(
                    routed,
                    window_start,
                    window_end,
                    loop_start,
                    loop_length,
                    e.occurrence_key.loop_iteration as nat,
                ).contains(e)
            },
    decreases m,
{
    if m > 0 {
        let prefix = loop_events_upto(
            routed,
            window_start,
            window_end,
            loop_start,
            loop_length,
            (m - 1) as nat,
        );
        let last = iteration_events(
            routed,
            window_start,
            window_end,
            loop_start,
            loop_length,
            (m - 1) as nat,
        );
        lemma_loop_upto_elements(
            routed,
            window_start,
            window_end,
            loop_start,
            loop_length,
            (m - 1) as nat,
        );
        let all = loop_events_upto(routed, window_start, window_end, loop_start, loop_length, m);
        assert(all == prefix + last);
        assert forall|i: int| 0 <= i < all.len() implies {
            let e = #[trigger] all[i];
            &&& e.occurrence_key.loop_iteration < m
            &&& iteration_events(
                routed,
                window_start,
                window_end,
                loop_start,
                loop_length,
                e.occurrence_key.loop_iteration as nat,
            ).contains(e)
        } by {
            if i < prefix.len() {
                assert(all[i] == prefix[i]);
            } else {
                let e = all[i];
                assert(e == last[i - prefix.len()]);
                assert(last.contains(e));
                assert(e.occurrence_key.loop_iteration == (m - 1) as u64);
            }
        }
    }
}

/// Law: a looping placement plays every loop iteration that starts inside
/// it. In iteration `k` (starting `k` loop lengths after the placement
/// start) the note's On edge lies at the note's offset from the loop
/// start, and its Off edge at its end's offset, cut at the end of the
/// iteration; each such edge that falls in the window and in the placement
/// (an Off also at the placement's end) is among the window's edges, with
/// occurrence `k`.
pub proof fn law_looping_placement_plays_each_iteration<'a>(
    routed_notes: Seq<RoutedNote<'a>>,
    j: int,
    window_start: int,
    window_end: int,
    loop_start: i64,
    loop_end: i64,
    k: nat,
)
    requires
        0 <= j < routed_notes.len(),
        routed_notes[j].clip_playback_mode == (ClipPlaybackMode::Loop {
            start_beat: loop_start,
            end_beat: loop_end,
        }),
        loop_start < loop_end,
        k * (loop_end - loop_start) < routed_notes[j].placement_length,
    ensures
        ({
            let r = routed_notes[j];
            let length = loop_end - loop_start;
            let iteration_start = r.placement_start_beat + k * length;
            let on = iteration_start + (r.note.spec_start_beat() - loop_start);
            let uncut_off = iteration_start + (r.note.spec_end_beat() - loop_start);
            let off = if uncut_off <= iteration_start + length {
                uncut_off
            } else {
                iteration_start + length
            };
            let placement_end = r.placement_start_beat + r.placement_length;
            let key = NoteOccurrenceKey {
                note_id: r.note.spec_id(),
                placement_id: r.placement_id,
                loop_iteration: k as u64,
            };
            let events = window_events(routed_notes, window_start, window_end);
            &&& (window_start <= on < window_end && r.placement_start_beat <= on < placement_end)
                ==> events.contains(
                ScheduledEvent {
                    note: r.note,
                    state: NoteState::On,
                    scheduled_beat: on as i64,
                    occurrence_key: key,
                },
            )
            &&& (window_start <= off < window_end && r.placement_start_beat <= off
                <= placement_end) ==> events.contains(
                ScheduledEvent {
                    note: r.note,
                    state: NoteState::Off,
                    scheduled_beat: off as i64,
                    occurrence_key: key,
                },
            )
        }),
{
    let r = routed_notes[j];
    let length = (loop_end - loop_start) as int;
    let pl = r.placement_length as int;
    let count = loop_iteration_count(pl, length);
    assert(k < count) by {
        vstd::arithmetic::div_mod::lemma_div_multiples_vanish(k as int, length);
        vstd::arithmetic::div_mod::lemma_div_is_ordered(k * length, pl + length - 1, length);
    }
    lemma_loop_upto_has_iteration(
        r,
        window_start,
        window_end,
        loop_start as int,
        length,
        count,
        k,
    );
    let own = iteration_events(r, window_start, window_end, loop_start as int, length, k);
    assert(routed_note_events(r, window_start, window_end) == loop_events_upto(
        r,
        window_start,
        window_end,
        loop_start as int,
        length,
        count,
    ));
    lemma_window_events_hold_routed(routed_notes, j, window_start, window_end);
    let iteration_start = r.placement_start_beat + k * length;
    let on = iteration_start + (r.note.spec_start_beat() - loop_start);
    let uncut_off = iteration_start + (r.note.spec_end_beat() - loop_start);
    let off = if uncut_off <= iteration_start + length {
        uncut_off
    } else {
        iteration_start + length
    };
    let on_part = if edge_emitted(
        on,
        window_start,
        window_end,
        r.placement_start_beat as int,
        r.placement_start_beat + pl,
    ) {
        seq![
            ScheduledEvent {
                note: r.note,
                state: NoteState::On,
                scheduled_beat: on as i64,
                occurrence_key: routed_key(r, k as u64),
            },
        ]
    } else {
        Seq::empty()
    };
    assert(off == loop_off_beat(
        r.placement_start_beat + k * length,
        r.note.spec_end_beat() as int,
        loop_start as int,
        length,
    ));
    if window_start <= on < window_end && r.placement_start_beat <= on < r.placement_start_beat
        + pl {
        assert(own[0] == on_part[0]);
        assert(own.contains(own[0]));
    }
    if window_start <= off < window_end && r.placement_start_beat <= off <= r.placement_start_beat
        + pl {
        let last = own.len() - 1;
        assert(own.contains(own[last]));
    }
}

/// Law: a looping placement emits nothing else. Each of its edges belongs
/// to the note and the placement, and lies where the iteration its
/// occurrence key names puts it: an On edge at the note's offset from the
/// loop start, an Off edge at its end's offset cut at the end of the
/// iteration, in the window and in the placement (an Off also at the
/// placement's end).
pub proof fn law_looping_placement_emits_only_its_iterations<'a>(
    routed: RoutedNote<'a>,
    window_start: int,
    window_end: int,
    loop_start: i64,
    loop_end: i64,
)
    requires
        routed.clip_playback_mode == (ClipPlaybackMode::Loop {
            start_beat: loop_start,
            end_beat: loop_end,
        }),
        loop_start < loop_end,
        0 <= window_start,
        window_end <= i64::MAX + 1,
    ensures
        forall|i: int|
            0 <= i < routed_note_events(routed, window_start, window_end).len() ==> {
                let e = #[trigger] routed_note_events(routed, window_start, window_end)[i];
                let length = loop_end - loop_start;
                let iteration_start = routed.placement_start_beat + e.occurrence_key.loop_iteration
                    * length;
                let on = iteration_start + (routed.note.spec_start_beat() - loop_start);
                let uncut_off = iteration_start + (routed.note.spec_end_beat() - loop_start);
                let off = if uncut_off <= iteration_start + length {
                    uncut_off
                } else {
                    iteration_start + length
                };
                let placement_end = routed.placement_start_beat + routed.placement_length;
                &&& e.note == routed.note
                &&& e.occurrence_key.note_id == routed.note.spec_id()
                &&& e.occurrence_key.placement_id == routed.placement_id
                &&& e.state == NoteState::On ==> {
                    &&& e.scheduled_beat == on
                    &&& window_start <= on < window_end
                    &&& routed.placement_start_beat <= on < placement_end
                }
                &&& e.state == NoteState::Off ==> {
                    &&& e.scheduled_beat == off
                    &&& window_start <= off < window_end
                    &&& routed.placement_start_beat <= off <= placement_end
                }
            },
{
    let length = (loop_end - loop_start) as int;
    let pl = routed.placement_length as int;
    let count = loop_iteration_count(pl, length);
    assert(count <= 0x1_0000_0000_0000_0000) by {
        if pl > 0 {
            assert(pl + length - 1 <= pl * length) by (nonlinear_arith)
                requires
                    pl > 0,
                    length > 0,
            ;
            vstd::arithmetic::div_mod::lemma_div_is_ordered(pl + length - 1, pl * length, length);
            vstd::arithmetic::div_mod::lemma_div_multiples_vanish(pl, length);
        }
    }
    lemma_loop_upto_elements(routed, window_start, window_end, loop_start as int, length, count);
    let events = routed_note_events(routed, window_start, window_end);
    assert(events == loop_events_upto(
        routed,
        window_start,
        window_end,
        loop_start as int,
        length,
        count,
    ));
    assert forall|i: int| 0 <= i < events.len() implies {
        let e = #[trigger] events[i];
        let iteration_start = routed.placement_start_beat + e.occurrence_key.loop_iteration
            * length;
        let on = iteration_start + (routed.note.spec_start_beat() - loop_start);
        let uncut_off = iteration_start + (routed.note.spec_end_beat() - loop_start);
        let off = if uncut_off <= iteration_start + length {
            uncut_off
        } else {
            iteration_start + length
        };
        let placement_end = routed.placement_start_beat + routed.placement_length;
        &&& e.note == routed.note
        &&& e.occurrence_key.note_id == routed.note.spec_id()
        &&& e.occurrence_key.placement_id == routed.placement_id
        &&& e.state == NoteState::On ==> {
            &&& e.scheduled_beat == on
            &&& window_start <= on < window_end
            &&& routed.placement_start_beat <= on < placement_end
        }
        &&& e.state == NoteState::Off ==> {
            &&& e.scheduled_beat == off
            &&& window_start <= off < window_end
            &&& routed.placement_start_beat <= off <= placement_end
        }
    } by {
        let e = events[i];
        let k = e.occurrence_key.loop_iteration as nat;
        let own = iteration_events(routed, window_start, window_end, loop_start as int, length, k);
        assert(own.contains(e));
        let n = choose|n: int| 0 <= n < own.len() && own[n] == e;
        let iteration_start = routed.placement_start_beat + k * length;
        let on = iteration_start + (routed.note.spec_start_beat() - loop_start);
        let off = loop_off_beat(
            iteration_start,
            routed.note.spec_end_beat() as int,
            loop_start as int,
            length,
        );
        let placement_end = routed.placement_start_beat + pl;
        let on_emitted = edge_emitted(
            on,
            window_start,
            window_end,
            routed.placement_start_beat as int,
            placement_end,
        );
        let on_part = if on_emitted {
            seq![
                ScheduledEvent {
                    note: routed.note,
                    state: NoteState::On,
                    scheduled_beat: on as i64,
                    occurrence_key: routed_key(routed, k as u64),
                },
            ]
        } else {
            Seq::<ScheduledEvent<'a>>::empty()
        };
        let off_part = if off_edge_emitted(
            off,
            window_start,
            window_end,
            routed.placement_start_beat as int,
            placement_end,
            true,
        ) {
            seq![
                ScheduledEvent {
                    note: routed.note,
                    state: NoteState::Off,
                    scheduled_beat: off as i64,
                    occurrence_key: routed_key(routed, k as u64),
                },
            ]
        } else {
            Seq::<ScheduledEvent<'a>>::empty()
        };
        assert(own == on_part + off_part);
        if n < on_part.len() {
            assert(e == on_part[n]);
        } else {
            assert(e == off_part[n - on_part.len()]);
        }
    }
}

/// Every edge of a routed note is among the window's edges.
proof fn lemma_window_events_hold_routed<'a>(
    routed_notes: Seq<RoutedNote<'a>>,
    j: int,
    window_start: int,
    window_end: int,
)
    requires
        0 <= j < routed_notes.len(),
    ensures
        forall|e: ScheduledEvent<'a>|
            #[trigger] routed_note_events(routed_notes[j], window_start, window_end).contains(e)
                ==> window_events(routed_notes, window_start, window_end).contains(e),
    decreases routed_notes.len(),
{
    let init = routed_notes.drop_last();
    let own = routed_note_events(routed_notes.last(), window_start, window_end);
    let earlier = window_events(init, window_start, window_end);
    assert(window_events(routed_notes, window_start, window_end) == earlier + own);
    if j < routed_notes.len() - 1 {
        lemma_window_events_hold_routed(init, j, window_start, window_end);
        assert(init[j] == routed_notes[j]);
        assert forall|e: ScheduledEvent<'a>|
            #[trigger] routed_note_events(routed_notes[j], window_start, window_end).contains(e)
                implies (earlier + own).contains(e) by {
            let i = choose|i: int| 0 <= i < earlier.len() && earlier[i] == e;
            assert((earlier + own)[i] == e);
        }
    } else {
        assert forall|e: ScheduledEvent<'a>|
            #[trigger] routed_note_events(routed_notes[j], window_start, window_end).contains(e)
                implies (earlier + own).contains(e) by {
            let i = choose|i: int| 0 <= i < own.len() && own[i] == e;
            assert((earlier + own)[earlier.len() + i] == e);
        }
    }
}

/// A scheduler is determined by its lookahead, cursor and last transport
/// beat.
pub proof fn lemma_scheduler_determined(a: Scheduler, b: Scheduler)
    requires
        a.spec_lookahead() == b.spec_lookahead(),
        a.spec_cursor() == b.spec_cursor(),
        a.spec_last_transport_beat() == b.spec_last_transport_beat(),
    ensures
        a == b,
{
}

/// Collects global note-edge events for a lookahead window.
pub struct Scheduler {
    lookahead: i64,
    cursor: Option<i64>,
    last_transport_beat: Option<i64>,
}

impl Scheduler {
    #[verifier::type_invariant]
    spec fn inv(&self) -> bool {
        &&& self.lookahead >= 0
        &&& self.cursor matches Some(c) ==> c >= 0
        &&& self.last_transport_beat matches Some(b) ==> b >= 0
    }

    /// The lookahead (ticks).
    pub closed spec fn spec_lookahead(&self) -> i64 {
        self.lookahead
    }

    /// The end of the last window, if any.
    pub closed spec fn spec_cursor(&self) -> Option<i64> {
        self.cursor
    }

    /// The transport beat seen by the last window, if any.
    pub closed spec fn spec_last_transport_beat(&self) -> Option<i64> {
        self.last_transport_beat
    }

    /// A scheduler with a four-beat lookahead and no window yet.
    pub fn new() -> (s: Self)
        ensures
            s.spec_lookahead() == DEFAULT_LOOKAHEAD,
            s.spec_cursor() is None,
            s.spec_last_transport_beat() is None,
    {
        Scheduler { lookahead: DEFAULT_LOOKAHEAD, cursor: None, last_transport_beat: None }
    }

    /// The end of the last window, if any.
    #[verifier::when_used_as_spec(spec_cursor)]
    pub fn cursor(&self) -> (r: Option<i64>)
        ensures
            r == self.spec_cursor(),
            r matches Some(c) ==> c >= 0,
    {
        proof {
            use_type_invariant(self);
        }
        self.cursor
    }

    /// The transport beat seen by the last window, if any.
    #[verifier::when_used_as_spec(spec_last_transport_beat)]
    pub fn last_transport_beat(&self) -> (r: Option<i64>)
        ensures
            r == self.spec_last_transport_beat(),
    {
        self.last_transport_beat
    }

    /// The lookahead (ticks).
    #[verifier::when_used_as_spec(spec_lookahead)]
    pub fn lookahead(&self) -> (r: i64)
        ensures
            r == self.spec_lookahead(),
            r >= 0,
    {
        proof {
            use_type_invariant(self);
        }
        self.lookahead
    }

    /// Sets the lookahead (ticks); a negative lookahead is refused and
    /// nothing changes.
    pub fn set_lookahead(&mut self, lookahead: i64) -> (r: Result<(), SchedulerError>)
        ensures
            if lookahead < 0 {
                &&& r == Err::<(), SchedulerError>(SchedulerError::InvalidLookahead)
                &&& *final(self) == *old(self)
            } else {
                &&& r is Ok
                &&& final(self).spec_lookahead() == lookahead
                &&& final(self).spec_cursor() == old(self).spec_cursor()
                &&& final(self).spec_last_transport_beat() == old(self).spec_last_transport_beat()
            },
    {
        proof {
            use_type_invariant(&*self);
        }
        if lookahead < 0 {
            return Err(SchedulerError::InvalidLookahead);
        }
        self.lookahead = lookahead;
        Ok(())
    }

    /// Forgets the window progress (cursor and last transport beat); the
    /// lookahead is kept.
    pub fn reset(&mut self)
        ensures
            final(self).spec_cursor() is None,
            final(self).spec_last_transport_beat() is None,
            final(self).spec_lookahead() == old(self).spec_lookahead(),
    {
        proof {
            use_type_invariant(&*self);
        }
        self.cursor = None;
        self.last_transport_beat = None;
    }

    /// Schedules the window from just after the cursor (from the
    /// transport's beat itself while rewinding or before the first window)
    /// up to and including the transport's beat plus the lookahead. A window
    /// whose end is its start returns no events and changes
    /// nothing; a refused window changes nothing; otherwise the cursor moves
    /// to the window end and the emitted edges come back sorted.
    pub fn advance_window<'a>(
        &mut self,
        routed_notes: Vec<RoutedNote<'a>>,
        transport: &Transport,
        tempo: &Tempo,
    ) -> (r: Result<Vec<ScheduledEvent<'a>>, SchedulerError>)
        ensures
            ({
                let current = transport.spec_beat_position(tempo);
                let window_start = window_start_of(
                    old(self).spec_cursor(),
                    transport.spec_state(),
                    current,
                );
                let window_end = current + old(self).spec_lookahead();
                if window_start == window_end {
                    &&& r matches Ok(events) && events@.len() == 0
                    &&& *final(self) == *old(self)
                } else if let Some(e) = window_error(window_start, window_end) {
                    &&& r == Err::<Vec<ScheduledEvent<'a>>, SchedulerError>(e)
                    &&& *final(self) == *old(self)
                } else {
                    &&& r matches Ok(events) && {
                        &&& sorted_by_key(events@)
                        &&& events@.to_multiset() == window_events(
                            routed_notes@,
                            window_first_tick(
                                old(self).spec_cursor(),
                                transport.spec_state(),
                                window_start,
                            ),
                            window_end + 1,
                        ).to_multiset()
                    }
                    &&& final(self).spec_cursor() == Some(window_end as i64)
                    &&& final(self).spec_last_transport_beat() == Some(current)
                    &&& final(self).spec_lookahead() == old(self).spec_lookahead()
                }
            }),
    {
        proof {
            use_type_invariant(&*self);
        }
        let current = transport.beat_position(tempo);
        let mut window_start: i64 = match self.cursor {
            Some(c) => c,
            None => current,
        };
        let mut continues_from_cursor = self.cursor.is_some();
        if transport.state() == TransportState::Rewinding {
            window_start = current;
            continues_from_cursor = false;
        }
        let window_end_wide: i128 = current as i128 + self.lookahead as i128;
        if window_end_wide == window_start as i128 {
            return Ok(Vec::new());
        }
        if window_start < 0 {
            return Err(SchedulerError::InvalidBeatStart);
        }
        if window_end_wide < 0 || window_end_wide > i64::MAX as i128 {
            return Err(SchedulerError::InvalidBeatEnd);
        }
        let window_end = window_end_wide as i64;
        if window_start > window_end {
            return Err(SchedulerError::InvalidNegativeWindow);
        }
        assert(current >= 0);
        self.last_transport_beat = Some(current);
        self.cursor = Some(window_end);
        let first_tick: i128 = if continues_from_cursor {
            window_start as i128 + 1
        } else {
            window_start as i128
        };
        let events = Self::collect_events_in_window(
            &routed_notes,
            first_tick,
            window_end as i128 + 1,
        );
        let sorted = sort_by_key(events);
        Ok(sorted)
    }

    fn collect_events_in_window<'a>(
        routed_notes: &Vec<RoutedNote<'a>>,
        window_start: i128,
        window_end: i128,
    ) -> (events: Vec<ScheduledEvent<'a>>)
        requires
            0 <= window_start,
            window_end <= i64::MAX + 1,
        ensures
            events@ == window_events(routed_notes@, window_start as int, window_end as int),
    {
        let mut events: Vec<ScheduledEvent<'a>> = Vec::new();
        let n = routed_notes.len();
        for i in 0..n
            invariant
                n == routed_notes@.len(),
                0 <= window_start,
                window_end <= i64::MAX + 1,
                events@ == window_events(
                    routed_notes@.take(i as int),
                    window_start as int,
                    window_end as int,
                ),
        {
            assert(routed_notes@.take(i + 1).drop_last() == routed_notes@.take(i as int));
            Self::collect_routed_note_events(window_start, window_end, &mut events, routed_notes[i]);
        }
        assert(routed_notes@.take(n as int) == routed_notes@);
        events
    }

    fn collect_routed_note_events<'a>(
        window_start: i128,
        window_end: i128,
        events: &mut Vec<ScheduledEvent<'a>>,
        routed: RoutedNote<'a>,
    )
        requires
            0 <= window_start,
            window_end <= i64::MAX + 1,
        ensures
            final(events)@ == old(events)@ + routed_note_events(
                routed,
                window_start as int,
                window_end as int,
            ),
    {
        match routed.clip_playback_mode() {
            ClipPlaybackMode::OneShot => {
                Self::push_one_shot_events(window_start, window_end, events, routed);
            },
            ClipPlaybackMode::Loop { start_beat, end_beat } => {
                Self::push_loop_events(
                    window_start,
                    window_end,
                    events,
                    routed,
                    start_beat,
                    end_beat,
                );
            },
        }
    }

    /// Pushes the emitted edges of one occurrence (On first, then Off).
    fn push_occurrence_events<'a>(
        events: &mut Vec<ScheduledEvent<'a>>,
        note: &'a ScheduledNote,
        key: NoteOccurrenceKey,
        note_on: i128,
        note_off: i128,
        window_start: i128,
        window_end: i128,
        placement_start: i128,
        placement_end: i128,
        release_at_end: bool,
    )
        requires
            0 <= window_start,
            window_end <= i64::MAX + 1,
        ensures
            final(events)@ == old(events)@ + occurrence_events(
                note,
                key,
                note_on as int,
                note_off as int,
                window_start as int,
                window_end as int,
                placement_start as int,
                placement_end as int,
                release_at_end,
            ),
    {
        let ghost start = old(events)@;
        if note_on >= window_start && note_on < window_end && note_on
            >= placement_start && note_on < placement_end {
            events.push(ScheduledEvent::new(note, NoteState::On, note_on as i64, key));
        }
        let ghost middle = events@;
        let before_end = if release_at_end {
            note_off <= placement_end
        } else {
            note_off < placement_end
        };
        if note_off >= window_start && note_off < window_end && note_off
            >= placement_start && before_end {
            events.push(ScheduledEvent::new(note, NoteState::Off, note_off as i64, key));
        }
        assert(events@ == start + (middle.skip(start.len() as int)) + events@.skip(
            middle.len() as int,
        ));
    }

    fn push_one_shot_events<'a>(
        window_start: i128,
        window_end: i128,
        events: &mut Vec<ScheduledEvent<'a>>,
        routed: RoutedNote<'a>,
    )
        requires
            0 <= window_start,
            window_end <= i64::MAX + 1,
        ensures
            final(events)@ == old(events)@ + one_shot_events(
                routed,
                window_start as int,
                window_end as int,
            ),
    {
        let note = routed.note();
        let placement_start = routed.placement_start_beat() as i128;
        let note_on = placement_start + note.start_beat() as i128;
        let note_off = placement_start + note.end_beat() as i128;
        let placement_end = placement_start + routed.placement_length() as i128;
        let occurrence_key = NoteOccurrenceKey::new(*note.id(), routed.placement_id(), 0);
        Self::push_occurrence_events(
            events,
            note,
            occurrence_key,
            note_on,
            note_off,
            window_start,
            window_end,
            placement_start,
            placement_end,
            false,
        );
    }

    fn push_loop_events<'a>(
        window_start: i128,
        window_end: i128,
        events: &mut Vec<ScheduledEvent<'a>>,
        routed: RoutedNote<'a>,
        loop_start_beat: i64,
        loop_end_beat: i64,
    )
        requires
            0 <= window_start,
            window_end <= i64::MAX + 1,
        ensures
            final(events)@ == old(events)@ + loop_events(
                routed,
                window_start as int,
                window_end as int,
                loop_start_beat as int,
                loop_end_beat as int,
            ),
    {
        let loop_length: i128 = loop_end_beat as i128 - loop_start_beat as i128;
        if loop_length <= 0 {
            return;
        }
        let note = routed.note();
        let local_on: i128 = note.start_beat() as i128 - loop_start_beat as i128;
        let local_off: i128 = note.end_beat() as i128 - loop_start_beat as i128;
        let placement_start: i128 = routed.placement_start_beat() as i128;
        let placement_length: i128 = routed.placement_length() as i128;
        let placement_end: i128 = placement_start + placement_length;
        let max_iterations: u64 = if placement_length <= 0 {
            1
        } else {
            (((placement_length + loop_length - 1) / loop_length) + 1) as u64
        };
        assert(max_iterations == loop_iteration_count(placement_length as int, loop_length as int))
            by (nonlinear_arith)
            requires
                loop_length > 0,
                placement_length <= i64::MAX,
                max_iterations == (if placement_length <= 0 {
                    1
                } else {
                    (((placement_length + loop_length - 1) / (loop_length as int)) + 1) as u64
                }),
        {
            if placement_length > 0 {
                assert((placement_length + loop_length - 1) / (loop_length as int) <= placement_length);
            }
        }
        let ghost start = old(events)@;
        let mut iteration: u64 = 0;
        while iteration < max_iterations
            invariant
                0 <= window_start,
                window_end <= i64::MAX + 1,
                iteration <= max_iterations,
                max_iterations == loop_iteration_count(
                    placement_length as int,
                    loop_length as int,
                ),
                loop_length == loop_end_beat - loop_start_beat,
                loop_length > 0,
                placement_length == routed.placement_length,
                placement_start == routed.placement_start_beat,
                placement_end == placement_start + placement_length,
                local_on == note.spec_start_beat() - loop_start_beat,
                local_off == note.spec_end_beat() - loop_start_beat,
                note == routed.note,
                0 <= note.spec_start_beat() < note.spec_end_beat() <= crate::scheduler::scheduled_note::MAX_BEAT,
                events@ == start + loop_events_upto(
                    routed,
                    window_start as int,
                    window_end as int,
                    loop_start_beat as int,
                    loop_length as int,
                    iteration as nat,
                ),
            decreases max_iterations - iteration,
        {
            assert(iteration * loop_length <= i64::MAX * 2 + loop_length * 2) by (nonlinear_arith)
                requires
                    loop_length > 0,
                    iteration < max_iterations,
                    max_iterations == loop_iteration_count(
                        placement_length as int,
                        loop_length as int,
                    ),
                    placement_length <= i64::MAX,
            {
                if placement_length > 0 {
                    let q = (placement_length + loop_length - 1) / (loop_length as int);
                    assert(q * loop_length <= placement_length + loop_length - 1);
                    assert(iteration <= q);
                    assert(iteration * loop_length <= q * loop_length);
                } else {
                    assert(iteration == 0);
                }
            }
            let loop_offset: i128 = iteration as i128 * loop_length;
            let note_on = placement_start + loop_offset + local_on;
            let uncut_off = placement_start + loop_offset + local_off;
            let iteration_end = placement_start + loop_offset + loop_length;
            let note_off = if uncut_off <= iteration_end {
                uncut_off
            } else {
                iteration_end
            };
            let occurrence_key = NoteOccurrenceKey::new(
                *note.id(),
                routed.placement_id(),
                iteration,
            );
            Self::push_occurrence_events(
                events,
                note,
                occurrence_key,
                note_on,
                note_off,
                window_start,
                window_end,
                placement_start,
                placement_end,
                true,
            );
            iteration = iteration + 1;
        }
    }
}

} // verus!
