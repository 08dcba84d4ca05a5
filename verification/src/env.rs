//! `PATH` inspection: tool recognition and conflict detection.
pub mod commands;
pub mod detector;
pub mod plugin;
