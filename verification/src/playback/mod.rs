pub mod enums;
pub mod logic_gate;
pub mod mapper;
pub mod playback_event;
pub mod playback_event_model;
pub mod timed_playback_event;

pub use enums::{PlaybackEventKind, ProbabilityError, ProbabilityTarget};
pub use playback_event::PlaybackEvent;
pub use playback_event_model::PlaybackEventModel;
pub use timed_playback_event::TimedPlaybackEvent;
pub mod probability;
pub mod probability_gate;
pub use probability::{Probabilities, Probability};
pub use probability_gate::ProbabilityGate;
pub mod active_notes;
pub mod playback_queue;
pub use active_notes::ActiveNotes;
pub use playback_queue::PlaybackQueue;
pub mod playback_executor;
pub use playback_executor::PlaybackExecutor;
pub mod pipeline;
pub use pipeline::{
    MutationBatch, MutationBatchDecision, MutationBatchItem, MutationDecision, PlaybackPipeline,
    PlaybackPipelineError,
};
pub mod playback_runtime;
pub use playback_runtime::PlaybackRuntime;
