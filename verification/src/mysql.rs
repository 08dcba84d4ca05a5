//! MySQL: password handling, detection, residue clean-up and the download catalogue.
pub mod password_reset;
pub mod reset_flow;
pub mod uninstaller;
pub mod cleaner;
pub mod detector;
pub mod fetcher;
pub mod plugin;
