//! Verified core of a Windows developer-environment manager: version and
//! configuration parsing, instance bookkeeping, download control and the
//! validation rules applied before any system change.
pub mod text;
pub mod winpath;
pub mod pattern;
pub mod json;
pub mod checksum;
pub mod error;
pub mod process_manager;
pub mod auto_update;
pub mod types;
pub mod detector_base;
pub mod env;
pub mod mysql;
pub mod postgresql;
pub mod java;
pub mod node;
pub mod python;
pub mod jetbrains;
pub mod runtime_switcher;
pub mod service_manager;
pub mod plugin;
pub mod remote_version_cache;
pub mod app_commands;
pub mod download_control;
pub mod probe;
pub mod residue;
