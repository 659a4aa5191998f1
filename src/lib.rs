//! Job execution and progress broadcasting for a media-fetch service.
//!
//! A request becomes a [`job::Job`], a state machine that says which events
//! to publish and what the runner does next; worker output lines are read by
//! [`progress::parse_progress_line`]; events go out on a [`bus::ProgressBus`]
//! with per-subscriber cursors and explicit overrun reports.
pub mod bus;
pub mod config;
pub mod error;
pub mod event;
pub mod filename;
pub mod job;
pub mod metadata;
pub mod paths;
pub mod progress;
pub mod relay;
pub mod transfer;
