//! Python: pip mirrors, interpreter path checks, and the release list.
pub mod mirror_manager;
pub mod package_manager;
pub mod version_fetcher;
pub mod detector;
pub mod plugin;
pub mod env_manager;
