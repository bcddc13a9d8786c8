pub mod enums;
pub mod occurrence;
pub mod scheduled_event;
pub mod scheduled_note;

pub use enums::NoteState;
pub use occurrence::NoteOccurrenceKey;
pub use scheduled_event::ScheduledEvent;
pub use scheduled_note::ScheduledNote;
pub mod scheduler;
pub use scheduler::Scheduler;
