//! Tracks the live/offline status of a configurable set of streaming
//! channels: a status poller reconciles API results into shared state,
//! a config watcher merges reloaded configurations without losing
//! volatile per-channel data, and both report notification-worthy
//! events to the presentation layer.

pub mod config;
pub mod json;
pub mod present;
pub mod text;
pub mod twitch;

pub use config::Channel;
pub use config::OpenStreamUsing;
pub use config::State;
pub use present::Events;
