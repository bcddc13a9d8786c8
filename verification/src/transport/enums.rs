use vstd::prelude::*;

verus! {

/// Playback state of the global transport.
#[derive(Debug, PartialEq, Eq, Ord, PartialOrd, Clone, Copy, Structural)]
pub enum TransportState {
    Playing,
    Paused,
    Stopped,
    Rewinding,
    Seeking,
    SeekingBackward,
    FastForwarding,
    FastForwardingBackward,
}

} // verus!
