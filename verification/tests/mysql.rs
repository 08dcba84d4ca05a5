use dev_tools::detector_base::{
    dedupe_instances, merge_instance, select_executable, ARCH_UNKNOWN, STATUS_NOT_INSTALLED, STATUS_RUNNING,
    STATUS_STOPPED, VERSION_UNKNOWN,
};
use dev_tools::mysql::cleaner::{
    build_instance_targets, derive_server_folder_name, derive_version_pattern,
    directories_for_instance, is_excluded_path, odbc_pattern, ps_quote, server_folder_would_panic,
    service_registry_key,
};
use dev_tools::mysql::detector::{
    common_service_names, first_visit, has_service_instance, mysql_info, parse_architecture,
    parse_port_from_config, parse_tasklist_pids, parse_version, service_only_instance,
};
use dev_tools::mysql::fetcher::{
    extract_filename, get_available_mysql_versions, installer_link, major_minor,
    md5_sidecar_verdict, package_download_link, server_link, CategoryEntry, ChecksumVerdict,
    MysqlVersionCatalog,
};
use dev_tools::mysql::password_reset::{
    build_password_reset_sql, build_safe_change_password_sql, build_simple_alter_sql,
    change_password_step, escape_mysql_password, is_mysql_8_or_higher, is_mysql_9_or_higher,
    parse_affected_rows, port_to_check, reset_outcome, startup_poll, validate_mysql_host,
    validate_password_strength, ChangeAction, ChangeEvent, ChangeRoute, ChangeStage,
    ProcessProbe, StartupDecision,
};
use dev_tools::types::{CleanOptions, MySQLInstance, ProcessOutput};

#[test]
fn derive_version_pattern_extracts_major_minor() {
    assert_eq!(derive_version_pattern("5.6.51"), "5.6");
    assert_eq!(derive_version_pattern("8.0.36"), "8.0");
}

#[test]
fn derive_server_folder_from_service_name() {
    let instance = MySQLInstance {
        version: "5.6.51".to_string(),
        architecture: "x86_64".to_string(),
        status: "停止".to_string(),
        path: String::new(),
        service_name: Some("MySQL56".to_string()),
        port: Some(3306),
        is_residual: false,
    };
    assert_eq!(derive_server_folder_name(&instance), "MySQL Server 5.6");
}

#[test]
fn build_targets_from_bin_path() {
    let instance = MySQLInstance {
        version: "5.7.44".to_string(),
        architecture: "x86_64".to_string(),
        status: "停止".to_string(),
        path: r"C:\Program Files\MySQL\MySQL Server 5.7\bin".to_string(),
        service_name: Some("MySQL57".to_string()),
        port: None,
        is_residual: false,
    };
    let targets = build_instance_targets(&instance, false);
    assert_eq!(targets.server_folder_name, "MySQL Server 5.7");
    assert_eq!(targets.install_dir.as_deref(), Some(r"C:\Program Files\MySQL\MySQL Server 5.7"));
    assert_eq!(targets.program_data_dir.as_deref(), Some(r"C:\ProgramData\MySQL\MySQL Server 5.7"));
}

#[test]
fn excluded_paths_block_integrated_environments() {
    assert!(is_excluded_path(r"C:\xampp\mysql"));
    assert!(!is_excluded_path(r"C:\Program Files\MySQL\MySQL Server 5.6"));
}

#[test]
fn cleaner_helpers() {
    assert!(is_excluded_path(r"c:\WAMP64\bin\mysql"));
    assert_eq!(odbc_pattern("8.0"), "MySQL ODBC 8");
    assert_eq!(odbc_pattern("5.7"), "MySQL ODBC 5");
    assert_eq!(odbc_pattern("10.6"), "MySQL ODBC");
    assert_eq!(service_registry_key("MySQL80"), r"HKLM\SYSTEM\CurrentControlSet\Services\MySQL80");
    assert_eq!(ps_quote("it's"), "it''s");
}

#[test]
fn scanned_directories_follow_the_options() {
    let instance = MySQLInstance {
        version: "8.0.36".to_string(),
        architecture: "x86_64".to_string(),
        status: "停止".to_string(),
        path: r"C:\mysql\MySQL Server 8.0\bin".to_string(),
        service_name: None,
        port: None,
        is_residual: false,
    };
    let targets = build_instance_targets(&instance, true);
    let mut both = CleanOptions::default();
    both.clean_install_dir = true;
    both.clean_program_data = true;
    let all = directories_for_instance(&targets, &both, true, false);
    assert_eq!(all.len(), 2);
    assert_eq!(all[0].category, "install_dir");
    assert!(all[0].exists);
    assert!(!all[1].exists);
    assert!(directories_for_instance(&targets, &CleanOptions::default(), true, true).is_empty());
}

#[test]
fn parse_port_from_mysqld_section() {
    let content = "\n[mysql]\nport=3307\n[mysqld]\nport=3308\n";
    assert_eq!(parse_port_from_config(content), Some(3308));
}

#[test]
fn parse_port_no_mysqld_section() {
    let content = "\n[mysql]\nport=3307\n[client]\nport=3309\n";
    assert_eq!(parse_port_from_config(content), None);
}

#[test]
fn parse_port_invalid_number() {
    let content = "\n[mysqld]\nport=not-a-number\n";
    assert_eq!(parse_port_from_config(content), None);
}

#[test]
fn parse_version_extracts_semver() {
    assert_eq!(parse_version("mysql  Ver 8.0.36 for Win64 on x86_64"), Some("8.0.36".to_string()));
    assert_eq!(parse_version("mysqld  Ver 5.7.44 for Win64 on x86_64"), Some("5.7.44".to_string()));
    assert_eq!(
        parse_version("mariadb  Ver 10.6.12-MariaDB for Win64 on x86_64"),
        Some("10.6.12".to_string())
    );
}

#[test]
fn parse_version_invalid_format() {
    assert_eq!(parse_version("invalid version string"), None);
    assert_eq!(parse_version("mysql Ver for Win64"), None);
}

#[test]
fn parse_architecture_detects_x86_64() {
    assert_eq!(parse_architecture("mysql  Ver 8.0.36 for Win64 on x86_64"), "x86_64");
    assert_eq!(parse_architecture("mysql  Ver 8.0.36 for Win64"), "x86_64");
}

#[test]
fn parse_architecture_detects_x86() {
    assert_eq!(parse_architecture("mysql  Ver 5.6.51 for Win32 on i686"), "x86");
    assert_eq!(parse_architecture("mysql  Ver 5.6.51 for Win32"), "x86");
}

#[test]
fn parse_architecture_unknown() {
    assert_eq!(parse_architecture("unknown architecture"), "unknown");
}

fn inst(version: &str, status: &str, path: &str, service: &str, port: Option<u16>) -> MySQLInstance {
    MySQLInstance {
        version: version.to_string(),
        architecture: "x86_64".to_string(),
        status: status.to_string(),
        path: path.to_string(),
        service_name: Some(service.to_string()),
        port,
        is_residual: false,
    }
}

#[test]
fn dedupe_merges_same_path() {
    let instances = vec![
        inst("8.0.36", STATUS_RUNNING, r"C:\mysql\bin", "MySQL80", None),
        inst("8.0.36", STATUS_RUNNING, r"C:\mysql\bin", "MySQL80", Some(3306)),
    ];
    let deduped = dedupe_instances(instances);
    assert_eq!(deduped.len(), 1);
    assert_eq!(deduped[0].port, Some(3306));
}

#[test]
fn dedupe_preserves_different_instances() {
    let instances = vec![
        inst("8.0.36", STATUS_RUNNING, r"C:\mysql8\bin", "MySQL80", Some(3306)),
        inst("5.7.44", STATUS_STOPPED, r"C:\mysql57\bin", "MySQL57", Some(3307)),
    ];
    let deduped = dedupe_instances(instances);
    assert_eq!(deduped.len(), 2);
}

#[test]
fn merge_instance_updates_missing_fields() {
    let mut existing = MySQLInstance {
        version: VERSION_UNKNOWN.to_string(),
        architecture: ARCH_UNKNOWN.to_string(),
        status: STATUS_NOT_INSTALLED.to_string(),
        path: String::new(),
        service_name: None,
        port: None,
        is_residual: false,
    };
    let incoming = inst("8.0.36", STATUS_RUNNING, r"C:\mysql\bin", "MySQL80", Some(3306));
    merge_instance(&mut existing, incoming);
    assert_eq!(existing.version, "8.0.36");
    assert_eq!(existing.architecture, "x86_64");
    assert_eq!(existing.status, STATUS_RUNNING);
    assert_eq!(existing.path, r"C:\mysql\bin");
    assert_eq!(existing.service_name, Some("MySQL80".to_string()));
    assert_eq!(existing.port, Some(3306));
}

#[test]
fn detector_helpers() {
    assert_eq!(parse_tasklist_pids("\"mysqld.exe\",\"1234\",\"Services\"\n\"mysqld.exe\",\"88\",\"x\"\n"), vec![1234, 88]);
    let svc = service_only_instance("MySQL80".to_string(), STATUS_STOPPED.to_string());
    assert_eq!(svc.version, VERSION_UNKNOWN);
    assert!(svc.path.is_empty());
    assert!(has_service_instance(&vec![svc], "MySQL80"));
    let mut seen: Vec<String> = Vec::new();
    assert!(first_visit(&mut seen, "a"));
    assert!(!first_visit(&mut seen, "a"));
    assert_eq!(seen.len(), 1);
    assert_eq!(common_service_names()[0], "MySQL80");
}

#[test]
fn server_link_pattern() {
    assert_eq!(server_link("9.4.0", "msi"), "https://cdn.mysql.com/archives/mysql-9.4/mysql-9.4.0-winx64.msi");
    assert_eq!(server_link("8.4.3", "zip"), "https://cdn.mysql.com/archives/mysql-8.4/mysql-8.4.3-winx64.zip");
}

#[test]
fn installer_archives_link() {
    assert_eq!(
        installer_link("8.0.45", "offline", false),
        "https://cdn.mysql.com/archives/mysql-installer/mysql-installer-community-8.0.45.0.msi"
    );
    assert_eq!(
        installer_link("8.0.45", "online", false),
        "https://cdn.mysql.com/archives/mysql-installer/mysql-installer-web-community-8.0.45.0.msi"
    );
}

#[test]
fn installer_downloads_link() {
    assert_eq!(
        installer_link("8.0.46", "offline", true),
        "https://cdn.mysql.com/Downloads/MySQLInstaller/mysql-installer-community-8.0.46.0.msi"
    );
}

fn catalog() -> MysqlVersionCatalog {
    MysqlVersionCatalog {
        categories: vec![
            CategoryEntry { name: "9.x".to_string(), mode: "server".to_string(), versions: vec!["9.4.0".to_string()] },
            CategoryEntry {
                name: "8.0".to_string(),
                mode: "installer".to_string(),
                versions: vec!["8.0.46".to_string(), "8.0.45".to_string()],
            },
            CategoryEntry { name: "5.5".to_string(), mode: "installer".to_string(), versions: vec!["5.5.60".to_string()] },
        ],
        downloads_channel: vec!["8.0.46".to_string()],
        offline_only: vec!["5.5.60".to_string()],
    }
}

#[test]
fn versions_have_correct_mode_and_packages() {
    let versions = get_available_mysql_versions(&catalog()).unwrap();
    let v = versions.iter().find(|v| v.version == "9.4.0").unwrap();
    assert_eq!(v.mode, "server");
    assert_eq!(v.packages.len(), 2);
    assert_eq!(v.packages[0].package_type, "msi");
    assert_eq!(v.packages[1].package_type, "zip");

    let v = versions.iter().find(|v| v.version == "8.0.45").unwrap();
    assert_eq!(v.mode, "installer");
    assert_eq!(v.packages.len(), 2);
    assert_eq!(v.packages[0].package_type, "offline");
    assert_eq!(v.packages[1].package_type, "online");

    let v = versions.iter().find(|v| v.version == "5.5.60").unwrap();
    assert_eq!(v.mode, "installer");
    assert_eq!(v.packages.len(), 1);
    assert_eq!(v.packages[0].package_type, "offline");

    let v = versions.iter().find(|v| v.version == "8.0.46").unwrap();
    assert!(v.packages[0].download_link.contains("/Downloads/MySQLInstaller/"));
}

#[test]
fn package_links_are_looked_up() {
    let versions = get_available_mysql_versions(&catalog()).unwrap();
    assert_eq!(
        package_download_link(&versions, "9.4.0", "zip").unwrap(),
        "https://cdn.mysql.com/archives/mysql-9.4/mysql-9.4.0-winx64.zip"
    );
    assert_eq!(package_download_link(&versions, "", "zip"), Err("版本号或包类型为空".to_string()));
    assert!(package_download_link(&versions, "1.0.0", "zip").is_err());
    assert_eq!(major_minor("8.0.36"), "8.0");
    assert_eq!(extract_filename("https://x/y/mysql-9.4.0-winx64.msi"), "mysql-9.4.0-winx64.msi");
}

#[test]
fn md5_sidecar_verdicts() {
    let digest = "0123456789abcdef0123456789abcdef";
    assert_eq!(md5_sidecar_verdict(&format!("{}  file.msi", digest.to_uppercase()), digest), ChecksumVerdict::Match);
    assert_eq!(md5_sidecar_verdict(&format!("{}  file.msi", digest), "ffffffffffffffffffffffffffffffff"), ChecksumVerdict::Mismatch);
    assert_eq!(md5_sidecar_verdict("not a digest", digest), ChecksumVerdict::Unreadable);
}

#[test]
fn escape_mysql_password_handles_special_chars() {
    assert_eq!(escape_mysql_password(r"a\b"), r"a\\b");
    assert_eq!(escape_mysql_password("it's"), "it''s");
    assert_eq!(escape_mysql_password("\"quote\""), r#"\"quote\""#);
    assert_eq!(escape_mysql_password("line1\nline2"), "line1\\nline2");
    assert_eq!(escape_mysql_password("tab\tsep"), "tab\\tsep");
    assert_eq!(escape_mysql_password("\x00null"), "\\0null");
    assert_eq!(escape_mysql_password("\x1actrlz"), "\\Zctrlz");
}

#[test]
fn validate_password_strength_rejects_short_password() {
    assert!(validate_password_strength("123").is_err());
    assert!(validate_password_strength("12345").is_err());
}

#[test]
fn validate_password_strength_accepts_normal_passwords() {
    assert!(validate_password_strength("123456").is_ok());
    assert!(validate_password_strength("Password1").is_ok());
    assert!(validate_password_strength("SecurePass123!").is_ok());
    assert!(validate_password_strength("my_pass1").is_ok());
    assert!(validate_password_strength("ABCdef12").is_ok());
}

#[test]
fn build_password_reset_sql_for_mysql8_includes_root_percent() {
    let sql = build_password_reset_sql("8.0.36", "newpass");
    assert!(sql.contains("root'@'%'"));
    assert!(sql.contains("newpass"));
}

#[test]
fn build_safe_change_password_sql_for_mysql57_uses_update() {
    let sql = build_safe_change_password_sql("5.7.44", "secret");
    assert!(sql.contains("UPDATE mysql.user"));
    assert!(sql.contains("authentication_string"));
    assert!(sql.contains("secret"));
}

#[test]
fn build_safe_change_password_sql_for_mysql8_uses_alter_user() {
    let sql = build_safe_change_password_sql("8.0.36", "secret");
    assert!(sql.contains("ALTER USER"));
    assert!(sql.contains("authentication_string") || sql.contains("IDENTIFIED BY"));
    assert!(sql.contains("secret"));
}

#[test]
fn build_password_reset_sql_escapes_special_chars() {
    let sql = build_password_reset_sql("8.0.36", "pass'with\"special");
    assert!(sql.contains("pass''with\\\"special"));
}

#[test]
fn is_mysql_8_or_higher_detects_version_correctly() {
    assert!(is_mysql_8_or_higher("8.0.36"));
    assert!(is_mysql_8_or_higher("8.4.0"));
    assert!(is_mysql_8_or_higher("9.0.0"));
    assert!(is_mysql_8_or_higher("9.1.2"));
    assert!(!is_mysql_8_or_higher("5.7.44"));
    assert!(!is_mysql_8_or_higher("5.6.51"));
    assert!(!is_mysql_8_or_higher("unknown"));
}

#[test]
fn is_mysql_9_or_higher_detects_version_correctly() {
    assert!(!is_mysql_9_or_higher("8.0.36"));
    assert!(!is_mysql_9_or_higher("8.4.0"));
    assert!(is_mysql_9_or_higher("9.0.0"));
    assert!(is_mysql_9_or_higher("9.1.2"));
    assert!(is_mysql_9_or_higher("9.5.0"));
    assert!(!is_mysql_9_or_higher("5.7.44"));
    assert!(!is_mysql_9_or_higher("unknown"));
}

#[test]
fn build_password_reset_sql_for_mysql9_uses_caching_sha2() {
    let sql = build_password_reset_sql("9.0.1", "newpass");
    assert!(sql.contains("ALTER USER"));
    assert!(sql.contains("caching_sha2_password"));
    assert!(sql.contains("newpass"));
    assert!(!sql.contains("mysql_native_password"));
    assert!(!sql.contains("PASSWORD("));
}

#[test]
fn build_password_reset_sql_for_mysql8_uses_native_password() {
    let sql = build_password_reset_sql("8.0.36", "newpass");
    assert!(sql.contains("ALTER USER"));
    assert!(sql.contains("mysql_native_password"));
    assert!(sql.contains("newpass"));
}

#[test]
fn build_safe_change_password_sql_for_mysql9_uses_alter_user() {
    let sql = build_safe_change_password_sql("9.1.0", "secret");
    assert!(sql.contains("ALTER USER"));
    assert!(!sql.contains("PASSWORD("));
}

#[test]
fn build_simple_alter_sql_for_mysql9_uses_alter_user() {
    let sql = build_simple_alter_sql("9.0.0", "secret", "localhost").unwrap();
    assert!(sql.contains("ALTER USER 'root'@'localhost' IDENTIFIED BY"));
    assert!(!sql.contains("PASSWORD("));
}

#[test]
fn legacy_servers_use_set_password() {
    let sql = build_simple_alter_sql("5.6.51", "secret", "localhost").unwrap();
    assert!(sql.contains("PASSWORD("));
    assert!(build_simple_alter_sql("8.0.36", "x", "evil'host").is_err());
    assert!(validate_mysql_host("127.0.0.1").is_ok());
}

#[test]
fn affected_rows_and_ports() {
    assert_eq!(parse_affected_rows("affected_rows\n3\n"), Some(3));
    assert_eq!(parse_affected_rows("nothing"), None);
    assert_eq!(port_to_check(None), 3306);
    assert_eq!(port_to_check(Some(3310)), 3310);
}

#[test]
fn startup_polling_decisions() {
    assert!(matches!(startup_poll(3, ProcessProbe::Running), StartupDecision::Wait));
    assert!(matches!(startup_poll(6, ProcessProbe::Running), StartupDecision::Proceed));
    assert!(matches!(startup_poll(2, ProcessProbe::Unknown), StartupDecision::Proceed));
    match startup_poll(4, ProcessProbe::Exited) {
        StartupDecision::Abort(m) => assert_eq!(m, "MySQL 进程在启动后第 4 秒退出，请查看上方错误输出"),
        _ => panic!("expected an abort"),
    }
}

#[test]
fn reset_outcome_words_the_test() {
    assert_eq!(reset_outcome(true, &Ok(true)), Ok("密码重置成功，连接测试通过！".to_string()));
}

fn ran(code: i32, stderr: &str) -> ChangeEvent {
    ChangeEvent::Ran(Ok(ProcessOutput { stdout: String::new(), stderr: stderr.to_string(), exit_code: code }))
}

#[test]
fn password_change_walks_forward() {
    let (s, a) = change_password_step(&ChangeStage::Start, "8.0.36", "newpass1", &ChangeEvent::Begin);
    assert!(matches!(s, ChangeStage::VerifyingOld));
    assert!(matches!(a, ChangeAction::RunSql(ref q) if q == "SELECT 1;"));
    let (s, a) = change_password_step(&s, "8.0.36", "newpass1", &ran(0, ""));
    assert!(matches!(s, ChangeStage::Altering));
    assert!(matches!(a, ChangeAction::RunSql(_)));
    let (s, a) = change_password_step(&s, "8.0.36", "newpass1", &ran(1, "ERROR 1396"));
    assert!(matches!(s, ChangeStage::FallingBack { route: ChangeRoute::Dynamic, .. }));
    assert!(matches!(a, ChangeAction::RunSql(_)));
    let (s, a) = change_password_step(&s, "8.0.36", "newpass1", &ran(0, ""));
    assert!(matches!(s, ChangeStage::Testing { route: ChangeRoute::Dynamic }));
    assert!(matches!(a, ChangeAction::TestConnection));
    let (s, a) = change_password_step(&s, "8.0.36", "newpass1", &ChangeEvent::Tested(Ok(true)));
    assert!(matches!(s, ChangeStage::Done));
    match a {
        ChangeAction::Finish(Ok(m)) => assert_eq!(m, "密码修改成功（备用方案），连接测试通过！"),
        _ => panic!("expected success"),
    }
}

#[test]
fn password_change_stops_on_wrong_old_password() {
    let (s, a) = change_password_step(&ChangeStage::VerifyingOld, "5.7.44", "x", &ran(1, "ERROR 1045 (28000): Access denied"));
    assert!(matches!(s, ChangeStage::Done));
    assert!(matches!(a, ChangeAction::Finish(Err(_))));
}

#[test]
fn executable_chosen_in_priority_order() {
    let names = vec!["mysql.exe".to_string(), "mysqld.exe".to_string()];
    assert_eq!(
        select_executable(r"C:\mysql\bin", &names, &vec![true, true]),
        Some(r"C:\mysql\bin\mysql.exe".to_string())
    );
    assert_eq!(
        select_executable(r"C:\mysql\bin\", &names, &vec![false, true]),
        Some(r"C:\mysql\bin\mysqld.exe".to_string())
    );
    assert_eq!(select_executable(r"C:\mysql\bin", &names, &vec![false, false]), None);
}

#[test]
fn folder_name_panic_is_foreseen() {
    let make = |path: &str, svc: Option<&str>| MySQLInstance {
        version: "8.0.36".to_string(),
        architecture: "x86_64".to_string(),
        status: "停止".to_string(),
        path: path.to_string(),
        service_name: svc.map(|s| s.to_string()),
        port: None,
        is_residual: false,
    };
    assert!(server_folder_would_panic(&make("", Some("MySQL中文"))));
    assert!(!server_folder_would_panic(&make("", Some("MySQL80"))));
    assert!(!server_folder_would_panic(&make(r"C:\Program Files\MySQL\MySQL Server 8.0\bin", Some("MySQL中文"))));
    assert!(!server_folder_would_panic(&make("", None)));
    let info = mysql_info(vec![make("", None), make("", Some("MySQL80"))]);
    assert_eq!(info.total_count, 2);
    assert_eq!(info.instances.len(), 2);
}
