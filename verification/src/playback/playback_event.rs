//! Playback-domain model of note events consumed by the playback layer.
//! Conversion from scheduler events is in `mapper`.
use crate::playback::enums::PlaybackEventKind;
use crate::scheduler::occurrence::NoteOccurrenceKey;
use vstd::prelude::*;

verus! {

/// A note event at a global beat (ticks), owned by the playback layer.
#[derive(Debug, Clone, Copy, PartialEq, Eq, Structural)]
pub struct PlaybackEvent {
    pub beat: i64,
    pub note_id: u128,
    pub occurrence_key: NoteOccurrenceKey,
    pub probability: u8,
    pub channel: u8,
    pub kind: PlaybackEventKind,
}

} // verus!
