//! Scheduling of video-meeting calendar events from short chat commands:
//! time-window resolution, the command grammar, caller authorization and
//! the construction of idempotent event-creation requests.

pub mod auth;
pub mod bot;
pub mod command;
pub mod event;
pub mod text;
pub mod time;
