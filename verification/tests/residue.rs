use dev_tools::residue::{
    build_delete_key_script, delete_key_result, finish_clean_result, mysql_cleanup_steps,
    postgresql_cleanup_steps, reg_delete_succeeded, registry_delete_order, registry_error_item,
    registry_provider_path, CleanupStep, deleted_subkey_items, is_uninstall_key, path_cleanup_report,
    sort_unique,
};
use dev_tools::types::{CleanOptions, ProcessOutput};

fn run(stdout: &str, stderr: &str, code: i32) -> Result<ProcessOutput, String> {
    Ok(ProcessOutput { stdout: stdout.to_string(), stderr: stderr.to_string(), exit_code: code })
}

#[test]
fn clean_result_messages() {
    let done = finish_clean_result("实例 MySQL Server 8.0", vec!["删除目录 [install_dir]: C:\\x".to_string()], vec![]);
    assert!(done.success);
    assert_eq!(done.message, "实例 MySQL Server 8.0 残留清理完成");
    let nothing = finish_clean_result("PostgreSQL 16", vec![], vec![]);
    assert!(nothing.success);
    assert_eq!(nothing.message, "PostgreSQL 16 未发现需要清理的残留");
    let partial = finish_clean_result("IntelliJ IDEA (2024.1)", vec!["a".to_string(), "b".to_string()], vec!["c".to_string()]);
    assert!(!partial.success);
    assert_eq!(partial.message, "IntelliJ IDEA (2024.1) 部分清理失败（成功 2 项，失败 1 项）");
    assert_eq!(partial.errors, vec!["c".to_string()]);
}

#[test]
fn registry_errors_for_missing_keys_are_tolerated() {
    assert_eq!(registry_error_item("HKLM\\X", "ERROR: Cannot find path because it does not exist."), None);
    assert_eq!(registry_error_item("HKLM\\X", "错误: 系统找不到指定的注册表项"), None);
    assert_eq!(registry_error_item("HKLM\\X", "Key NOT FOUND"), None);
    assert_eq!(
        registry_error_item("HKLM\\X", "Access is denied"),
        Some("删除注册表 HKLM\\X 失败: Access is denied".to_string())
    );
}

#[test]
fn uninstall_keys_are_deleted_first() {
    let keys = vec![
        "HKLM\\SOFTWARE\\MySQL AB\\MySQL Server 8.0".to_string(),
        "HKLM\\SOFTWARE\\Microsoft\\Windows\\CurrentVersion\\Uninstall\\{A}".to_string(),
        "HKCU\\SOFTWARE\\MySQL AB".to_string(),
        "HKLM\\SOFTWARE\\WOW6432Node\\Microsoft\\Windows\\CurrentVersion\\Uninstall\\{B}".to_string(),
    ];
    let order = registry_delete_order(&keys);
    assert_eq!(order, vec![keys[1].clone(), keys[3].clone(), keys[0].clone(), keys[2].clone()]);
}

#[test]
fn registry_paths_for_powershell() {
    assert_eq!(registry_provider_path("HKLM\\SOFTWARE\\MySQL AB"), "HKLM:\\SOFTWARE\\MySQL AB");
    assert_eq!(registry_provider_path("HKCU\\SOFTWARE\\MySQL AB"), "HKCU:\\SOFTWARE\\MySQL AB");
    assert_eq!(registry_provider_path("HKLM\\SOFTWARE\\HKLM"), "HKLM:\\SOFTWARE\\HKLM:");
    assert_eq!(registry_provider_path("HKEY_USERS\\x"), "HKEY_USERS\\x");
    let script = build_delete_key_script("HKLM\\SOFTWARE\\O'Neil");
    assert!(script.contains("Remove-Item -Path 'HKLM:\\SOFTWARE\\O''Neil' -Recurse -Force"));
}

#[test]
fn registry_delete_outcomes() {
    let ok = run("", "", 0);
    let failed = run("", "ERROR: access denied", 1);
    assert!(reg_delete_succeeded(&ok));
    assert!(!reg_delete_succeeded(&failed));
    assert_eq!(delete_key_result(&ok, &Err("unused".to_string())), Ok(()));
    assert_eq!(delete_key_result(&failed, &run("SUCCESS\r\n", "", 0)), Ok(()));
    assert_eq!(
        delete_key_result(&failed, &run("ERROR: denied\n", "", 0)),
        Err("PowerShell 删除失败: ERROR: denied".to_string())
    );
    assert_eq!(
        delete_key_result(&failed, &run("x", " boom ", 1)),
        Err("PowerShell 删除失败: boom".to_string())
    );
    assert_eq!(
        delete_key_result(&failed, &Err("spawn".to_string())),
        Err("所有删除方法都失败了".to_string())
    );
}

#[test]
fn cleanup_step_plans() {
    let all = CleanOptions {
        clean_install_dir: true,
        clean_program_data: true,
        clean_registry_services: false,
        clean_registry_mysql_ab: false,
        clean_registry_uninstall: false,
        clean_registry_installer: false,
        clean_odbc: true,
        clean_user_registry: false,
        clean_start_menu: true,
        clean_path: true,
        kill_processes: true,
        remove_services: true,
    };
    assert_eq!(
        mysql_cleanup_steps(&all),
        vec![
            CleanupStep::KillProcesses,
            CleanupStep::RemoveServices,
            CleanupStep::KillLeftovers,
            CleanupStep::CleanRegistry,
            CleanupStep::RemoveDirectories,
            CleanupStep::CleanStartMenu,
            CleanupStep::CleanPath,
        ]
    );
    assert_eq!(
        postgresql_cleanup_steps(&all),
        vec![
            CleanupStep::KillProcesses,
            CleanupStep::RemoveServices,
            CleanupStep::KillLeftovers,
            CleanupStep::RemoveDirectories,
            CleanupStep::CleanStartMenu,
            CleanupStep::CleanPath,
        ]
    );
    assert_eq!(mysql_cleanup_steps(&CleanOptions::default()), vec![CleanupStep::RemoveDirectories]);
}

use dev_tools::jetbrains::uninstaller::uninstall_command;
use dev_tools::residue::listing_lines;
use dev_tools::types::JetBrainsInstallation;

fn ide(uninstall: &str, quiet: &str) -> JetBrainsInstallation {
    JetBrainsInstallation {
        product_name: "IntelliJ IDEA 2024.1".to_string(),
        product_code: "IU".to_string(),
        version: "2024.1".to_string(),
        install_location: "C:\\Program Files\\JetBrains\\IntelliJ IDEA 2024.1".to_string(),
        uninstall_string: uninstall.to_string(),
        quiet_uninstall_string: quiet.to_string(),
        is_toolbox: false,
        publisher: "JetBrains s.r.o.".to_string(),
    }
}

#[test]
fn uninstall_commands() {
    assert_eq!(uninstall_command(&ide("a.exe", "\"u.exe\" /S")), Some("\"u.exe\" /S".to_string()));
    assert_eq!(
        uninstall_command(&ide("MsiExec.exe /I{1234-ABCD} ", "")),
        Some("msiexec.exe /x {1234-ABCD} /quiet /norestart".to_string())
    );
    assert_eq!(uninstall_command(&ide("MsiExec.exe /I1234", "")), Some("MsiExec.exe /I1234".to_string()));
    assert_eq!(
        uninstall_command(&ide("C:\\IDE\\bin\\Uninstall.exe  ", "")),
        Some("C:\\IDE\\bin\\Uninstall.exe /S".to_string())
    );
    assert_eq!(uninstall_command(&ide("", "")), None);
}

#[test]
fn powershell_listing_lines() {
    let out = run("  HKCU\\SOFTWARE\\JetBrains\\IntelliJIdea2024.1 \r\n\r\n   \nHKLM\\SOFTWARE\\JetBrains\n", "", 0);
    assert_eq!(
        listing_lines(&out),
        vec!["HKCU\\SOFTWARE\\JetBrains\\IntelliJIdea2024.1".to_string(), "HKLM\\SOFTWARE\\JetBrains".to_string()]
    );
    assert!(listing_lines(&run("x", "", 1)).is_empty());
    assert!(listing_lines(&Err("no powershell".to_string())).is_empty());
}

use dev_tools::jetbrains::cleaner::{residue_folders, residue_label};

#[test]
fn jetbrains_residue_folders() {
    let i = ide("", "");
    assert_eq!(residue_label(&i), "IntelliJ IDEA 2024.1 (2024.1)");
    let (config, cache) = residue_folders(
        Some("IntelliJIdea2024.1"),
        Some("C:\\Users\\a\\AppData\\Roaming"),
        Some("C:\\Users\\a\\AppData\\Local"),
        true,
        false,
    );
    let config = config.unwrap();
    assert_eq!(config.path, "C:\\Users\\a\\AppData\\Roaming\\JetBrains\\IntelliJIdea2024.1");
    assert_eq!(config.category, "config");
    assert!(config.exists);
    let cache = cache.unwrap();
    assert_eq!(cache.path, "C:\\Users\\a\\AppData\\Local\\JetBrains\\IntelliJIdea2024.1");
    assert!(!cache.exists);
    let (none, also_none) = residue_folders(None, Some("C:\\R"), Some("C:\\L"), true, true);
    assert!(none.is_none() && also_none.is_none());
}

use dev_tools::checksum::{hex_string, md5_hex, sha256_hex};

#[test]
fn file_digests_in_lower_hex() {
    assert_eq!(sha256_hex(b"abc"), "ba7816bf8f01cfea414140de5dae2223b00361a396177a9cb410ff61f20015ad");
    assert_eq!(sha256_hex(b""), "e3b0c44298fc1c149afbf4c8996fb92427ae41e4649b934ca495991b7852b855");
    assert_eq!(md5_hex(b"abc"), "900150983cd24fb0d6963f7d28e17f72");
    assert_eq!(md5_hex(b""), "d41d8cd98f00b204e9800998ecf8427e");
    assert_eq!(hex_string(&vec![0u8, 15, 16, 255]), "000f10ff");
}

#[test]
fn uninstall_keys_are_recognised() {
    assert!(is_uninstall_key(r"HKLM\SOFTWARE\Microsoft\Windows\CurrentVersion\Uninstall\{ABC}"));
    assert!(!is_uninstall_key(r"HKLM\SOFTWARE\MySQL AB"));
}

#[test]
fn subkey_deletions_become_items() {
    let out = "DELETED: HKLM:\\A\\x\r\nnoise\n  DELETED: B\n";
    assert_eq!(
        deleted_subkey_items(out),
        vec!["删除注册表子项: HKLM:\\A\\x".to_string(), "删除注册表子项: DELETED: B".to_string()]
    );
    assert!(deleted_subkey_items("").is_empty());
}

#[test]
fn path_cleanup_outcomes() {
    assert_eq!(path_cleanup_report(&run(" UPDATED:Machine,User \n", "", 0)), Some(Ok("已清理实例相关 PATH: Machine,User".to_string())));
    assert_eq!(path_cleanup_report(&run("NONE\n", "", 0)), None);
    assert_eq!(path_cleanup_report(&run("", " denied ", 1)), Some(Err("清理 PATH 失败: denied".to_string())));
    assert_eq!(path_cleanup_report(&Err("boom".to_string())), Some(Err("清理 PATH 异常: boom".to_string())));
}

#[test]
fn keys_sorted_and_unique() {
    let keys = vec!["b".to_string(), "a".to_string(), "b".to_string(), "HKLM".to_string()];
    assert_eq!(sort_unique(keys), vec!["HKLM".to_string(), "a".to_string(), "b".to_string()]);
    assert!(sort_unique(Vec::new()).is_empty());
}
