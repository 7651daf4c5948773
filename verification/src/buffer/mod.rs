//! The Buffer Layer: absorbs network jitter, reorders packets, detects
//! duplicates and loss, and releases packets in playback order.

pub mod config;
pub mod error;
pub mod jitter_buffer;
pub mod packet_window;

pub use config::BufferConfig;
pub use error::BufferError;
pub use jitter_buffer::{JitterBuffer, JitterBufferStatistics};
pub use packet_window::{PacketWindow, WindowStatistics};
