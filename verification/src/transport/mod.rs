pub mod enums;
pub mod transport;

pub use enums::TransportState;
pub use transport::Transport;
