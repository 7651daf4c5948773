//! The Streaming Engine's data and rules: the wire-level packet type, its
//! configuration and error type, and the lifecycle and delivery decisions
//! of the engine (the queues and worker tasks that act on them are async
//! plumbing around this module).

pub mod config;
pub mod engine;
pub mod error;
pub mod packet;

pub use config::StreamingConfig;

pub use engine::{EngineState, EngineStatus};
pub use error::StreamingError;
pub use packet::{AudioPacket, PacketFlags};
