//! Tracking of sounding notes, by occurrence, so that a stop or a seek can
//! switch every one of them off.
//!
//! The notes are held in a vector with at most one entry per occurrence
//! key; its model is the map from occurrence key to active note.
use crate::playback::enums::PlaybackEventKind;
use crate::playback::mapper::FULL_PROBABILITY;
use crate::playback::playback_event::PlaybackEvent;
use crate::playback::timed_playback_event::TimedPlaybackEvent;
use crate::scheduler::occurrence::NoteOccurrenceKey;
use crate::sorting::{sort_by_key, sorted_by_key, KeyOrder};
use vstd::prelude::*;

verus! {

/// A sounding note: its occurrence, note identity, note value and channel.
#[derive(Debug, Clone, Copy, PartialEq, Eq, Structural)]
pub struct ActiveNote {
    pub occurrence_key: NoteOccurrenceKey,
    pub note_id: u128,
    pub note: u8,
    pub channel: u8,
}

/// No two entries share an occurrence key.
pub open spec fn keys_unique(s: Seq<ActiveNote>) -> bool {
    forall|i: int, j: int|
        0 <= i < j < s.len() ==> #[trigger] s[i].occurrence_key != #[trigger] s[j].occurrence_key
}

/// The map from occurrence key to active note of a list of entries.
pub open spec fn active_map(s: Seq<ActiveNote>) -> Map<NoteOccurrenceKey, ActiveNote>
    decreases s.len(),
{
    if s.len() == 0 {
        Map::empty()
    } else {
        active_map(s.drop_last()).insert(s.last().occurrence_key, s.last())
    }
}

/// The NoteOff that silences an active note at `beat`.
pub open spec fn panic_off_of(active: ActiveNote, beat: i64) -> PlaybackEvent {
    PlaybackEvent {
        beat,
        note_id: active.note_id,
        occurrence_key: active.occurrence_key,
        probability: FULL_PROBABILITY,
        channel: active.channel,
        kind: PlaybackEventKind::NoteOff { note: active.note },
    }
}

/// The timed NoteOff that silences an active note at `sample_position`.
pub open spec fn timed_panic_off_of(active: ActiveNote, sample_position: u64) -> TimedPlaybackEvent {
    TimedPlaybackEvent {
        sample_position,
        note_id: active.note_id,
        occurrence_key: active.occurrence_key,
        channel: active.channel,
        kind: PlaybackEventKind::NoteOff { note: active.note },
    }
}

/// The active notes after recording an event of `kind` for an occurrence:
/// a NoteOn makes the occurrence active (replacing an entry for it), a
/// NoteOff ends it, other kinds change nothing.
pub open spec fn after_tracking(
    active: Map<NoteOccurrenceKey, ActiveNote>,
    occurrence_key: NoteOccurrenceKey,
    note_id: u128,
    channel: u8,
    kind: PlaybackEventKind,
) -> Map<NoteOccurrenceKey, ActiveNote> {
    match kind {
        PlaybackEventKind::NoteOn { note, .. } => active.insert(
            occurrence_key,
            ActiveNote { occurrence_key, note_id, note, channel },
        ),
        PlaybackEventKind::NoteOff { .. } => active.remove(occurrence_key),
        _ => active,
    }
}

/// The active notes after recording `events` in order.
pub open spec fn after_tracking_all(
    active: Map<NoteOccurrenceKey, ActiveNote>,
    events: Seq<PlaybackEvent>,
) -> Map<NoteOccurrenceKey, ActiveNote>
    decreases events.len(),
{
    if events.len() == 0 {
        active
    } else {
        let e = events.last();
        after_tracking(
            after_tracking_all(active, events.drop_last()),
            e.occurrence_key,
            e.note_id,
            e.channel,
            e.kind,
        )
    }
}

/// The active notes after recording the timed `events` in order.
pub open spec fn after_tracking_all_timed(
    active: Map<NoteOccurrenceKey, ActiveNote>,
    events: Seq<TimedPlaybackEvent>,
) -> Map<NoteOccurrenceKey, ActiveNote>
    decreases events.len(),
{
    if events.len() == 0 {
        active
    } else {
        let e = events.last();
        after_tracking(
            after_tracking_all_timed(active, events.drop_last()),
            e.occurrence_key,
            e.note_id,
            e.channel,
            e.kind,
        )
    }
}

/// `offs` switches off every active note at `beat`: one NoteOff per active
/// occurrence, ordered by placement, note identity and loop iteration.
pub open spec fn is_panic_offs(
    active: Map<NoteOccurrenceKey, ActiveNote>,
    beat: i64,
    offs: Seq<PlaybackEvent>,
) -> bool {
    &&& sorted_by_key(offs)
    &&& offs.len() == active.len()
    &&& forall|i: int|
        0 <= i < offs.len() ==> {
            &&& active.contains_key(#[trigger] offs[i].occurrence_key)
            &&& offs[i] == panic_off_of(active[offs[i].occurrence_key], beat)
        }
    &&& forall|k: NoteOccurrenceKey| #[trigger]
        active.contains_key(k) ==> exists|i: int| 0 <= i < offs.len() && offs[i].occurrence_key == k
}

/// `offs` switches off every active note at `sample_position`, as
/// `is_panic_offs` describes, with timed events (in deadline order, which
/// here is placement, note identity and loop iteration).
pub open spec fn is_timed_panic_offs(
    active: Map<NoteOccurrenceKey, ActiveNote>,
    sample_position: u64,
    offs: Seq<TimedPlaybackEvent>,
) -> bool {
    &&& sorted_by_key(offs)
    &&& offs.len() == active.len()
    &&& forall|i: int|
        0 <= i < offs.len() ==> {
            &&& active.contains_key(#[trigger] offs[i].occurrence_key)
            &&& offs[i] == timed_panic_off_of(active[offs[i].occurrence_key], sample_position)
        }
    &&& forall|k: NoteOccurrenceKey| #[trigger]
        active.contains_key(k) ==> exists|i: int| 0 <= i < offs.len() && offs[i].occurrence_key == k
}

/// Law: a NoteOn followed by a NoteOff of the same occurrence leaves that
/// occurrence silent and every other occurrence as it was.
pub proof fn law_note_on_then_off_is_silent(
    active: Map<NoteOccurrenceKey, ActiveNote>,
    key: NoteOccurrenceKey,
    note_id: u128,
    channel: u8,
    note: u8,
    velocity: u8,
    off_note: u8,
)
    ensures
        after_tracking(
            after_tracking(
                active,
                key,
                note_id,
                channel,
                PlaybackEventKind::NoteOn { note, velocity },
            ),
            key,
            note_id,
            channel,
            PlaybackEventKind::NoteOff { note: off_note },
        ) == active.remove(key),
{
    assert(active.insert(key, ActiveNote { occurrence_key: key, note_id, note, channel }).remove(key)
        =~= active.remove(key));
}

/// Law: after a NoteOn, switching everything off yields a NoteOff for that
/// occurrence, with its note and channel.
pub proof fn law_panic_silences_sounding_note(
    active: Map<NoteOccurrenceKey, ActiveNote>,
    key: NoteOccurrenceKey,
    note_id: u128,
    channel: u8,
    note: u8,
    velocity: u8,
    beat: i64,
    offs: Seq<PlaybackEvent>,
)
    requires
        is_panic_offs(
            after_tracking(
                active,
                key,
                note_id,
                channel,
                PlaybackEventKind::NoteOn { note, velocity },
            ),
            beat,
            offs,
        ),
    ensures
        exists|i: int|
            0 <= i < offs.len() && #[trigger] offs[i] == (PlaybackEvent {
                beat,
                note_id,
                occurrence_key: key,
                probability: FULL_PROBABILITY,
                channel,
                kind: PlaybackEventKind::NoteOff { note },
            }),
{
    let m = after_tracking(active, key, note_id, channel, PlaybackEventKind::NoteOn { note, velocity });
    assert(m.contains_key(key));
    let i = choose|i: int| 0 <= i < offs.len() && offs[i].occurrence_key == key;
    assert(offs[i] == panic_off_of(m[key], beat));
}

/// The map's keys are the entries' keys, and each key maps to its entry.
proof fn lemma_active_map_entries(s: Seq<ActiveNote>)
    requires
        keys_unique(s),
    ensures
        forall|i: int|
            0 <= i < s.len() ==> #[trigger] active_map(s).contains_key(s[i].occurrence_key)
                && active_map(s)[s[i].occurrence_key] == s[i],
        forall|k: NoteOccurrenceKey|
            #[trigger] active_map(s).contains_key(k) ==> exists|i: int|
                0 <= i < s.len() && s[i].occurrence_key == k,
        active_map(s).dom().finite(),
        active_map(s).dom().len() == s.len(),
    decreases s.len(),
{
    if s.len() > 0 {
        let init = s.drop_last();
        assert(keys_unique(init));
        lemma_active_map_entries(init);
        assert(!active_map(init).contains_key(s.last().occurrence_key)) by {
            if active_map(init).contains_key(s.last().occurrence_key) {
                let i = choose|i: int|
                    0 <= i < init.len() && init[i].occurrence_key == s.last().occurrence_key;
                assert(s[i].occurrence_key == s[s.len() - 1].occurrence_key);
            }
        }
        assert forall|k: NoteOccurrenceKey| #[trigger]
            active_map(s).contains_key(k) implies exists|i: int|
            0 <= i < s.len() && s[i].occurrence_key == k by {
            if k != s.last().occurrence_key {
                let i = choose|i: int| 0 <= i < init.len() && init[i].occurrence_key == k;
                assert(s[i].occurrence_key == k);
            } else {
                assert(s[s.len() - 1].occurrence_key == k);
            }
        }
        assert forall|i: int| 0 <= i < s.len() implies #[trigger] active_map(s).contains_key(
            s[i].occurrence_key,
        ) && active_map(s)[s[i].occurrence_key] == s[i] by {
            if i < s.len() - 1 {
                assert(init[i] == s[i]);
            }
        }
    }
}

/// Removing an entry removes its key from the map.
proof fn lemma_active_map_remove(s: Seq<ActiveNote>, i: int)
    requires
        keys_unique(s),
        0 <= i < s.len(),
    ensures
        keys_unique(s.remove(i)),
        active_map(s.remove(i)) == active_map(s).remove(s[i].occurrence_key),
    decreases s.len(),
{
    let r = s.remove(i);
    assert(keys_unique(r)) by {
        assert forall|a: int, b: int| 0 <= a < b < r.len() implies #[trigger] r[a].occurrence_key
            != #[trigger] r[b].occurrence_key by {
            let sa = if a < i {
                a
            } else {
                a + 1
            };
            let sb = if b < i {
                b
            } else {
                b + 1
            };
            assert(r[a] == s[sa] && r[b] == s[sb]);
        }
    }
    let init = s.drop_last();
    assert(keys_unique(init));
    if i == s.len() - 1 {
        assert(r == init);
        lemma_active_map_entries(init);
        assert(!active_map(init).contains_key(s.last().occurrence_key)) by {
            if active_map(init).contains_key(s.last().occurrence_key) {
                let j = choose|j: int|
                    0 <= j < init.len() && init[j].occurrence_key == s.last().occurrence_key;
                assert(s[j].occurrence_key == s[s.len() - 1].occurrence_key);
            }
        }
        assert(active_map(s).remove(s[i].occurrence_key) =~= active_map(init));
    } else {
        lemma_active_map_remove(init, i);
        assert(r == init.remove(i).push(s.last()));
        assert(r.drop_last() == init.remove(i));
        assert(s[i].occurrence_key != s.last().occurrence_key);
        assert(active_map(r) =~= active_map(s).remove(s[i].occurrence_key));
    }
}

/// Panic NoteOffs are ordered by placement, then note identity, then loop
/// iteration.
impl KeyOrder for PlaybackEvent {
    open spec fn key_le(self, other: Self) -> bool {
        ||| self.occurrence_key.placement_id < other.occurrence_key.placement_id
        ||| self.occurrence_key.placement_id == other.occurrence_key.placement_id && self.note_id
            < other.note_id
        ||| self.occurrence_key.placement_id == other.occurrence_key.placement_id && self.note_id
            == other.note_id && self.occurrence_key.loop_iteration
            <= other.occurrence_key.loop_iteration
    }

    proof fn lemma_key_le_total(a: Self, b: Self) {
    }

    proof fn lemma_key_le_transitive(a: Self, b: Self, c: Self) {
    }

    fn precedes_or_ties(&self, other: &Self) -> (r: bool) {
        if self.occurrence_key.placement_id != other.occurrence_key.placement_id {
            return self.occurrence_key.placement_id < other.occurrence_key.placement_id;
        }
        if self.note_id != other.note_id {
            return self.note_id < other.note_id;
        }
        self.occurrence_key.loop_iteration <= other.occurrence_key.loop_iteration
    }
}

/// Sounding notes by occurrence.
#[derive(Debug, Default)]
pub struct ActiveNotes {
    active: Vec<ActiveNote>,
}

impl ActiveNotes {
    #[verifier::type_invariant]
    spec fn inv(&self) -> bool {
        keys_unique(self.active@)
    }

    /// The active notes by occurrence key.
    pub closed spec fn spec_active(&self) -> Map<NoteOccurrenceKey, ActiveNote> {
        active_map(self.active@)
    }

    /// No active notes.
    pub fn new() -> (r: Self)
        ensures
            r.spec_active() == Map::<NoteOccurrenceKey, ActiveNote>::empty(),
    {
        Self { active: Vec::new() }
    }

    /// The index of the entry for `key`, if any.
    fn find(active: &Vec<ActiveNote>, key: &NoteOccurrenceKey) -> (r: Option<usize>)
        ensures
            match r {
                Some(i) => i < active@.len() && active@[i as int].occurrence_key == *key,
                None => forall|i: int|
                    0 <= i < active@.len() ==> #[trigger] active@[i].occurrence_key != *key,
            },
    {
        let n = active.len();
        for i in 0..n
            invariant
                n == active@.len(),
                forall|j: int| 0 <= j < i ==> #[trigger] active@[j].occurrence_key != *key,
        {
            if active[i].occurrence_key == *key {
                return Some(i);
            }
        }
        None
    }

    /// Records a NoteOn (the occurrence becomes active, replacing an entry
    /// of the same occurrence) or a NoteOff (the occurrence is no longer
    /// active); other kinds change nothing.
    fn track(
        &mut self,
        occurrence_key: NoteOccurrenceKey,
        note_id: u128,
        channel: u8,
        kind: PlaybackEventKind,
    )
        ensures
            final(self).spec_active() == after_tracking(
                old(self).spec_active(),
                occurrence_key,
                note_id,
                channel,
                kind,
            ),
    {
        proof {
            use_type_invariant(&*self);
        }
        match kind {
            PlaybackEventKind::NoteOn { note, .. } => {
                let mut active = Vec::new();
                std::mem::swap(&mut active, &mut self.active);
                let ghost before = active@;
                let found = Self::find(&active, &occurrence_key);
                if let Some(i) = found {
                    proof {
                        lemma_active_map_remove(active@, i as int);
                    }
                    active.remove(i);
                }
                let ghost middle = active@;
                assert(active_map(middle) == active_map(before).remove(occurrence_key)) by {
                    if found is None {
                        lemma_active_map_entries(before);
                        assert(!active_map(before).contains_key(occurrence_key)) by {
                            if active_map(before).contains_key(occurrence_key) {
                                let j = choose|j: int|
                                    0 <= j < before.len() && before[j].occurrence_key
                                        == occurrence_key;
                                assert(before[j].occurrence_key != occurrence_key);
                            }
                        }
                        assert(active_map(before).remove(occurrence_key) =~= active_map(before));
                    }
                }
                let entry = ActiveNote { occurrence_key, note_id, note, channel };
                active.push(entry);
                assert(active@.drop_last() == middle);
                assert(keys_unique(active@)) by {
                    lemma_active_map_entries(middle);
                    assert forall|a: int, b: int| 0 <= a < b < active@.len() implies #[trigger] active@[a].occurrence_key
                        != #[trigger] active@[b].occurrence_key by {
                        if b == active@.len() - 1 {
                            assert(active_map(middle).contains_key(middle[a].occurrence_key));
                        } else {
                            assert(active@[a] == middle[a] && active@[b] == middle[b]);
                        }
                    }
                }
                assert(active_map(active@) =~= active_map(before).insert(occurrence_key, entry));
                self.active = active;
            },
            PlaybackEventKind::NoteOff { .. } => {
                let mut active = Vec::new();
                std::mem::swap(&mut active, &mut self.active);
                let ghost before = active@;
                let found = Self::find(&active, &occurrence_key);
                if let Some(i) = found {
                    proof {
                        lemma_active_map_remove(active@, i as int);
                    }
                    active.remove(i);
                } else {
                    proof {
                        lemma_active_map_entries(before);
                        assert(!active_map(before).contains_key(occurrence_key)) by {
                            if active_map(before).contains_key(occurrence_key) {
                                let j = choose|j: int|
                                    0 <= j < before.len() && before[j].occurrence_key
                                        == occurrence_key;
                                assert(before[j].occurrence_key != occurrence_key);
                            }
                        }
                        assert(active_map(before).remove(occurrence_key) =~= active_map(before));
                    }
                }
                self.active = active;
            },
            _ => {},
        }
    }

    /// Records a playback event: a NoteOn makes its occurrence active, a
    /// NoteOff ends it; other kinds change nothing.
    pub fn track_event(&mut self, event: &PlaybackEvent)
        ensures
            final(self).spec_active() == after_tracking(
                old(self).spec_active(),
                event.occurrence_key,
                event.note_id,
                event.channel,
                event.kind,
            ),
    {
        self.track(event.occurrence_key, event.note_id, event.channel, event.kind);
    }

    /// Records a timed playback event, as `track_event` does.
    pub fn track_timed_event(&mut self, event: &TimedPlaybackEvent)
        ensures
            final(self).spec_active() == after_tracking(
                old(self).spec_active(),
                event.occurrence_key,
                event.note_id,
                event.channel,
                event.kind,
            ),
    {
        self.track(event.occurrence_key, event.note_id, event.channel, event.kind);
    }

    /// Switches every active note off at `beat`: one NoteOff per active
    /// occurrence, ordered by placement, note identity and loop iteration;
    /// afterwards nothing is active.
    pub fn panic_note_offs(&mut self, beat: i64) -> (offs: Vec<PlaybackEvent>)
        ensures
            final(self).spec_active() == Map::<NoteOccurrenceKey, ActiveNote>::empty(),
            is_panic_offs(old(self).spec_active(), beat, offs@),
    {
        broadcast use vstd::seq_lib::group_to_multiset_ensures;

        proof {
            use_type_invariant(&*self);
            lemma_active_map_entries(self.active@);
        }
        let n = self.active.len();
        let mut out: Vec<PlaybackEvent> = Vec::new();
        for i in 0..n
            invariant
                n == self.active@.len(),
                out@.len() == i,
                forall|j: int|
                    0 <= j < i ==> #[trigger] out@[j] == panic_off_of(self.active@[j], beat),
        {
            let active = &self.active[i];
            out.push(
                PlaybackEvent {
                    beat,
                    note_id: active.note_id,
                    occurrence_key: active.occurrence_key,
                    probability: FULL_PROBABILITY,
                    channel: active.channel,
                    kind: PlaybackEventKind::NoteOff { note: active.note },
                },
            );
        }
        let ghost entries = self.active@;
        let ghost mapped = out@;
        let sorted = sort_by_key(out);
        proof {
            assert forall|i: int| 0 <= i < sorted@.len() implies {
                &&& active_map(entries).contains_key(#[trigger] sorted@[i].occurrence_key)
                &&& sorted@[i] == panic_off_of(
                    active_map(entries)[sorted@[i].occurrence_key],
                    beat,
                )
            } by {
                assert(sorted@.to_multiset().count(sorted@[i]) > 0);
                assert(mapped.contains(sorted@[i]));
                let j = choose|j: int| 0 <= j < mapped.len() && mapped[j] == sorted@[i];
                assert(mapped[j] == panic_off_of(entries[j], beat));
                assert(active_map(entries).contains_key(entries[j].occurrence_key));
                assert(active_map(entries)[entries[j].occurrence_key] == entries[j]);
                assert(sorted@[i].occurrence_key == entries[j].occurrence_key);
            }
            assert forall|k: NoteOccurrenceKey| #[trigger]
                active_map(entries).contains_key(k) implies exists|i: int|
                0 <= i < sorted@.len() && sorted@[i].occurrence_key == k by {
                let j = choose|j: int| 0 <= j < entries.len() && entries[j].occurrence_key == k;
                assert(mapped[j] == panic_off_of(entries[j], beat));
                assert(mapped.to_multiset().count(mapped[j]) > 0);
                assert(sorted@.contains(mapped[j]));
            }
        }
        proof {
            assert(sorted@.len() == sorted@.to_multiset().len());
            assert(mapped.len() == mapped.to_multiset().len());
        }
        self.clear();
        sorted
    }

    /// Switches every active note off at `sample_position`, as
    /// `panic_note_offs` does, with timed events.
    pub fn panic_note_offs_timed(&mut self, sample_position: u64) -> (offs: Vec<
        TimedPlaybackEvent,
    >)
        ensures
            final(self).spec_active() == Map::<NoteOccurrenceKey, ActiveNote>::empty(),
            is_timed_panic_offs(old(self).spec_active(), sample_position, offs@),
    {
        broadcast use vstd::seq_lib::group_to_multiset_ensures;

        proof {
            use_type_invariant(&*self);
            lemma_active_map_entries(self.active@);
        }
        let n = self.active.len();
        let mut out: Vec<TimedPlaybackEvent> = Vec::new();
        for i in 0..n
            invariant
                n == self.active@.len(),
                out@.len() == i,
                forall|j: int|
                    0 <= j < i ==> #[trigger] out@[j] == timed_panic_off_of(
                        self.active@[j],
                        sample_position,
                    ),
        {
            let active = &self.active[i];
            out.push(
                TimedPlaybackEvent {
                    sample_position,
                    note_id: active.note_id,
                    occurrence_key: active.occurrence_key,
                    channel: active.channel,
                    kind: PlaybackEventKind::NoteOff { note: active.note },
                },
            );
        }
        let ghost entries = self.active@;
        let ghost mapped = out@;
        let sorted = sort_by_key(out);
        proof {
            assert forall|i: int| 0 <= i < sorted@.len() implies {
                &&& active_map(entries).contains_key(#[trigger] sorted@[i].occurrence_key)
                &&& sorted@[i] == timed_panic_off_of(
                    active_map(entries)[sorted@[i].occurrence_key],
                    sample_position,
                )
            } by {
                assert(sorted@.to_multiset().count(sorted@[i]) > 0);
                assert(mapped.contains(sorted@[i]));
                let j = choose|j: int| 0 <= j < mapped.len() && mapped[j] == sorted@[i];
                assert(mapped[j] == timed_panic_off_of(entries[j], sample_position));
                assert(active_map(entries).contains_key(entries[j].occurrence_key));
                assert(active_map(entries)[entries[j].occurrence_key] == entries[j]);
                assert(sorted@[i].occurrence_key == entries[j].occurrence_key);
            }
            assert forall|k: NoteOccurrenceKey| #[trigger]
                active_map(entries).contains_key(k) implies exists|i: int|
                0 <= i < sorted@.len() && sorted@[i].occurrence_key == k by {
                let j = choose|j: int| 0 <= j < entries.len() && entries[j].occurrence_key == k;
                assert(mapped[j] == timed_panic_off_of(entries[j], sample_position));
                assert(mapped.to_multiset().count(mapped[j]) > 0);
                assert(sorted@.contains(mapped[j]));
            }
        }
        proof {
            assert(sorted@.len() == sorted@.to_multiset().len());
            assert(mapped.len() == mapped.to_multiset().len());
        }
        self.clear();
        sorted
    }

    /// Forgets every active note.
    pub fn clear(&mut self)
        ensures
            final(self).spec_active() == Map::<NoteOccurrenceKey, ActiveNote>::empty(),
    {
        self.active = Vec::new();
    }
}

} // verus!
