//! Java: reading `java -version`, the Maven mirror settings, and the Adoptium downloads.
pub mod detector;
pub mod mirror_manager;
pub mod version_fetcher;
pub mod plugin;
