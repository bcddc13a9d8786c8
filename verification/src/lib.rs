//! Timing and event flow of a music engine: tempo, transport, clips,
//! scheduling, probability gating and playback event mapping.
//!
//! Musical time is kept in fixed point: a beat position or a beat length is
//! an `i64` number of ticks, [`tempo::TICKS_PER_BEAT`] ticks to the beat.
//! Tempo is kept in thousandths of a beat per minute.

pub mod tempo;
pub mod transport;
pub mod clips;
pub mod ids;
pub mod playback;
pub mod scheduler;
pub mod sorting;
