pub mod arrangement_view;
pub mod clip;
pub mod clip_placement;
pub mod enums;

pub use arrangement_view::ArrangementView;
pub use clip::{Clip, Clips};
pub use clip_placement::{ClipPlacement, ClipPlacements};
pub use enums::{ClipPlaybackMode, ClipPlaybackModeError};
pub mod clip_router;
pub use clip_router::{ClipRouter, ResolvedClipNote, RoutedNote};
