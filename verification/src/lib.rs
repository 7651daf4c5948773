//! EchoSync's audio-delivery core: packet types and lifecycle rules of the
//! streaming engine, the jitter buffer with its sequence window, the
//! earliest-deadline-first playback queue and timeline, the checks of a
//! clock-synchronization configuration, and the room API's request
//! framing, routing and JSON.

mod clock;
pub mod streaming;
pub mod text;
pub mod time_span;
pub mod buffer;
pub mod scheduler;
pub mod api;
pub mod clock_sync;
