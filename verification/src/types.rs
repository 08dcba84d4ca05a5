//! Plain data records shared by the tool modules.
use vstd::prelude::*;

verus! {

/// A detected MySQL / MariaDB instance.
#[derive(Debug, Clone)]
pub struct MySQLInstance {
    pub version: String,
    pub architecture: String,
    pub status: String,
    pub path: String,
    pub service_name: Option<String>,
    pub port: Option<u16>,
    pub is_residual: bool,
}

/// The MySQL detection result: the instances and how many there are.
#[derive(Debug, Clone)]
pub struct MySQLInfo {
    pub instances: Vec<MySQLInstance>,
    pub total_count: i32,
}

/// A detected PostgreSQL instance.
#[derive(Debug, Clone)]
pub struct PostgresqlInstance {
    pub version: String,
    pub architecture: String,
    pub status: String,
    pub path: String,
    pub service_name: Option<String>,
    pub port: Option<u16>,
    pub is_residual: bool,
    pub data_dir: Option<String>,
}

/// The PostgreSQL detection result: the instances and how many there are.
#[derive(Debug, Clone)]
pub struct PostgresqlInfo {
    pub instances: Vec<PostgresqlInstance>,
    pub total_count: i32,
}

/// A detected Java runtime.
#[derive(Debug, Clone)]
pub struct JavaVersion {
    pub version: String,
    pub path: String,
    pub executable: String,
    pub vendor: String,
    pub manager: String,
    pub status: String,
}

/// A detected Node.js runtime.
#[derive(Debug, Clone)]
pub struct NodeVersion {
    pub version: String,
    pub path: String,
    pub executable: String,
    pub manager: String,
    pub status: String,
}

/// A globally installed npm package.
#[derive(Debug, Clone)]
pub struct NodePackage {
    pub name: String,
    pub version: String,
}

/// A Python environment: a system interpreter or a virtual environment.
#[derive(Debug, Clone)]
pub struct PythonEnvironment {
    pub name: String,
    pub env_type: String,
    pub path: String,
    pub python_version: String,
}

/// A package installed in a Python environment.
#[derive(Debug, Clone)]
pub struct PythonPackage {
    pub name: String,
    pub version: String,
    pub summary: String,
}

/// A detected Python interpreter.
#[derive(Debug, Clone)]
pub struct PythonVersion {
    pub version: String,
    pub path: String,
    pub executable: String,
    pub manager: String,
    pub status: String,
}

/// One entry of a `PATH` variable.
#[derive(Debug, Clone)]
pub struct EnvPath {
    pub path: String,
    pub scope: String,
    pub exists: bool,
    pub tool: Option<String>,
}

/// A problem found in the `PATH` entries.
#[derive(Debug, Clone)]
pub struct PathConflict {
    pub kind: String,
    pub tool: Option<String>,
    pub paths: Vec<String>,
    pub message: String,
}

/// A Maven mirror.
#[derive(Debug, Clone)]
pub struct MavenMirror {
    pub name: String,
    pub url: String,
    pub active: bool,
}

/// An npm registry mirror.
#[derive(Debug, Clone)]
pub struct NpmMirror {
    pub name: String,
    pub url: String,
    pub active: bool,
}

/// A pip index mirror.
#[derive(Debug, Clone)]
pub struct PipMirror {
    pub name: String,
    pub url: String,
    pub active: bool,
}

/// A downloadable MySQL package.
#[derive(Debug, Clone)]
pub struct MySQLPackageOption {
    pub package_type: String,
    pub display_name: String,
    pub download_link: String,
    pub size: u64,
}

/// A MySQL release offered for download.
#[derive(Debug, Clone)]
pub struct MySQLVersionInfo {
    pub mode: String,
    pub category: String,
    pub version: String,
    pub packages: Vec<MySQLPackageOption>,
}

/// A PostgreSQL installer offered for download.
#[derive(Debug, Clone)]
pub struct PostgresqlVersionInfo {
    pub version: String,
    pub download_link: String,
    pub size: u64,
}

/// A Node.js release from a mirror's index.
#[derive(Debug, Clone)]
pub struct AvailableNodeVersion {
    pub version: String,
    pub is_lts: bool,
    pub date: String,
}

/// A Python release listed by a mirror.
#[derive(Debug, Clone)]
pub struct AvailablePythonVersion {
    pub version: String,
    pub is_stable: bool,
}

/// An installed JetBrains product.
#[derive(Debug, Clone)]
pub struct JetBrainsInstallation {
    pub product_name: String,
    pub product_code: String,
    pub version: String,
    pub install_location: String,
    pub uninstall_string: String,
    pub quiet_uninstall_string: String,
    pub is_toolbox: bool,
    pub publisher: String,
}

/// A downloadable JetBrains package.
#[derive(Debug, Clone)]
pub struct JetBrainsPackageOption {
    pub package_type: String,
    pub display_name: String,
    pub download_link: String,
    pub size: u64,
    pub checksum_link: String,
}

/// What a residue clean-up did: whether everything went through, a summary,
/// the items removed and the failures.
#[derive(Debug, Clone)]
pub struct CleanResult {
    pub success: bool,
    pub message: String,
    pub cleaned_items: Vec<String>,
    pub errors: Vec<String>,
}

/// Which kinds of residue a clean-up covers.
#[derive(Debug, Clone, Copy)]
pub struct CleanOptions {
    pub clean_install_dir: bool,
    pub clean_program_data: bool,
    pub clean_registry_services: bool,
    pub clean_registry_mysql_ab: bool,
    pub clean_registry_uninstall: bool,
    pub clean_registry_installer: bool,
    pub clean_odbc: bool,
    pub clean_user_registry: bool,
    pub clean_start_menu: bool,
    pub clean_path: bool,
    pub kill_processes: bool,
    pub remove_services: bool,
}

impl Default for CleanOptions {
    fn default() -> (r: CleanOptions)
        ensures
            r == (CleanOptions {
                clean_install_dir: false,
                clean_program_data: false,
                clean_registry_services: false,
                clean_registry_mysql_ab: false,
                clean_registry_uninstall: false,
                clean_registry_installer: false,
                clean_odbc: false,
                clean_user_registry: false,
                clean_start_menu: false,
                clean_path: false,
                kill_processes: false,
                remove_services: false,
            }),
    {
        CleanOptions {
            clean_install_dir: false,
            clean_program_data: false,
            clean_registry_services: false,
            clean_registry_mysql_ab: false,
            clean_registry_uninstall: false,
            clean_registry_installer: false,
            clean_odbc: false,
            clean_user_registry: false,
            clean_start_menu: false,
            clean_path: false,
            kill_processes: false,
            remove_services: false,
        }
    }
}

/// A directory a clean-up would remove.
#[derive(Debug, Clone)]
pub struct ScannedPath {
    pub path: String,
    pub category: String,
    pub exists: bool,
}

/// What a finished external command printed and how it exited.
#[derive(Debug, Clone)]
pub struct ProcessOutput {
    pub stdout: String,
    pub stderr: String,
    pub exit_code: i32,
}

/// A Java feature release offered for download.
#[derive(Debug, Clone)]
pub struct AvailableJavaVersion {
    pub feature_version: u32,
    pub is_lts: bool,
    pub most_recent_version: String,
    pub timestamp: String,
}

/// The newest release of a JetBrains product, as listed in the overview.
#[derive(Debug, Clone)]
pub struct JetBrainsVersionInfo {
    pub product_code: String,
    pub product_name: String,
    pub version: String,
    pub date: String,
    pub download_link: String,
    pub size: u64,
    pub checksum_link: String,
}

/// One release of a JetBrains product with the packages it offers.
#[derive(Debug, Clone)]
pub struct JetBrainsVersionDetail {
    pub version: String,
    pub date: String,
    pub packages: Vec<JetBrainsPackageOption>,
}

/// One downloadable file of a JetBrains release.
#[derive(Debug, Clone)]
pub struct JetBrainsDownload {
    pub link: String,
    pub size: u64,
    pub checksum_link: String,
}

/// The Windows downloads of a JetBrains release: installer, portable zip, ARM64 installer.
#[derive(Debug, Clone)]
pub struct JetBrainsDownloads {
    pub windows: Option<JetBrainsDownload>,
    pub windows_zip: Option<JetBrainsDownload>,
    pub windows_arm64: Option<JetBrainsDownload>,
}

/// A JetBrains release as the release API describes it.
#[derive(Debug, Clone)]
pub struct JetBrainsRelease {
    pub version: String,
    pub date: String,
    pub downloads: JetBrainsDownloads,
}

/// An entry of the Windows uninstall registry that may be a JetBrains product.
#[derive(Debug, Clone)]
pub struct RegistryUninstallItem {
    pub product_name: String,
    pub version: String,
    pub install_location: String,
    pub uninstall_string: String,
    pub quiet_uninstall_string: String,
    pub publisher: String,
    pub is_toolbox: bool,
}

/// An environment variable and where it is set (`user` or `system`).
#[derive(Debug, Clone)]
pub struct EnvVariable {
    pub name: String,
    pub value: String,
    pub scope: String,
}

/// The answer of an update check.
#[derive(Debug, Clone)]
pub struct UpdateInfo {
    pub has_update: bool,
    pub current_version: String,
    pub latest_version: String,
    pub html_url: String,
    pub body: Option<String>,
    pub published_at: Option<String>,
}

} // verus!
