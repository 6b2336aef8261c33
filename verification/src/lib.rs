//! Auto-refresh schedule engine for browser tabs.
//!
//! A rule binds a URL pattern to a refresh interval; the engine keeps all
//! rules in a registry, matches open tabs against them, and drives the
//! arm/disarm/pause/resume life cycle of each rule's recurring timer.

pub mod rr_error;
pub mod strutil;
pub mod url_model;
pub mod config;
pub mod timers;
pub mod tabs;
pub mod scheduler;
pub mod laws;
