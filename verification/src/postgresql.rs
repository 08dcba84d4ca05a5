//! PostgreSQL: password handling, detection, residue clean-up and the download list.
pub mod password_reset;
pub mod reset_flow;
pub mod uninstaller;
pub mod cleaner;
pub mod detector;
pub mod fetcher;
pub mod plugin;
