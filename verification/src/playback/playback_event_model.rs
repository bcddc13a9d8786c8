//! Adapter from scheduler-owned events to playback-owned events.
use crate::playback::mapper::{map_scheduled_event, playback_event_of};
use crate::playback::playback_event::PlaybackEvent;
use crate::scheduler::scheduled_event::ScheduledEvent;
use vstd::prelude::*;

verus! {

/// Adapter for converting scheduler-owned models into playback events.
pub struct PlaybackEventModel;

impl PlaybackEventModel {
    /// Converts a `ScheduledEvent` into a `PlaybackEvent`.
    pub fn from_scheduled_event(event: &ScheduledEvent) -> (r: PlaybackEvent)
        ensures
            r == playback_event_of(*event),
    {
        map_scheduled_event(event)
    }
}

} // verus!
