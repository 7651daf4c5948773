//! The Playback Scheduler: computes playback deadlines and releases
//! packets in earliest-deadline-first order once they are due.

pub mod config;
pub mod error;
pub mod playback_queue;
pub mod playback_scheduler;
pub mod timeline;

pub use config::SchedulerConfig;
pub use error::SchedulerError;
pub use playback_queue::{PlaybackQueue, ScheduledPacket};
pub use playback_scheduler::PlaybackScheduler;
pub use timeline::PlaybackTimeline;
