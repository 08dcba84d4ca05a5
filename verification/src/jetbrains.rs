//! JetBrains IDEs: recognising installations, their configuration folders, and the release API.
pub mod detector;
pub mod cleaner;
pub mod fetcher;
pub mod plugin;
pub mod uninstaller;
