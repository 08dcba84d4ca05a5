use dev_tools::mysql::uninstaller::{
    build_uninstall_filter, check_uninstall_request, check_uninstall_selection, known_version_for, needs_version_probe,
    resolve_instance_version,
};
use dev_tools::postgresql::uninstaller as pgu;
use dev_tools::service_manager::{report_pid_kill, service_pids};
use dev_tools::types::{MySQLInstance, ProcessOutput};

#[test]
fn mysql_uninstall_filters() {
    assert_eq!(
        build_uninstall_filter(r"C:\Program Files\MySQL\MySQL Server 8.0\bin", "8.0.36"),
        Some(r"MySQL Server 8\.0|MySQL\s+Server\s+8\.0|MariaDB\s+8\.0".to_string())
    );
    assert_eq!(
        build_uninstall_filter(r"C:\tools\db\bin", "10.6.12"),
        Some(r"MySQL\s+Server\s+10\.6|MariaDB\s+10\.6".to_string())
    );
    assert_eq!(build_uninstall_filter(r"C:\tools\db\bin", "未知版本"), None);
    assert_eq!(
        build_uninstall_filter(r"C:\x\MariaDB 10.6\bin", "unknown"),
        Some(r"MariaDB 10\.6".to_string())
    );
}

#[test]
fn mysql_uninstall_versions() {
    assert!(!needs_version_probe("8.0.36"));
    assert!(needs_version_probe(""));
    assert!(needs_version_probe("未知版本"));
    assert!(needs_version_probe("未知"));
    let ran = Ok(ProcessOutput { stdout: "mysql  Ver 8.0.36 for Win64".to_string(), stderr: String::new(), exit_code: 0 });
    assert_eq!(resolve_instance_version("5.7.44", Some(&ran)), "5.7.44");
    assert_eq!(resolve_instance_version("未知版本", Some(&ran)), "8.0.36");
    assert_eq!(resolve_instance_version("未知版本", None), "未知版本");
    assert!(check_uninstall_selection(&vec![]).is_err());
    assert!(check_uninstall_selection(&vec!["MySQL80".to_string()]).is_ok());
    let insts = vec![MySQLInstance {
        version: "8.0.36".to_string(),
        architecture: "x86_64".to_string(),
        status: "停止".to_string(),
        path: String::new(),
        service_name: Some("MySQL80".to_string()),
        port: None,
        is_residual: false,
    }];
    assert_eq!(known_version_for(&insts, "MySQL80"), "8.0.36");
    assert_eq!(known_version_for(&insts, "MySQL57"), "");
}

#[test]
fn pg_uninstall_filters_and_versions() {
    assert_eq!(pgu::build_uninstall_filter("16.2"), Some(r"PostgreSQL\s+16".to_string()));
    assert_eq!(pgu::build_uninstall_filter("未知版本"), None);
    assert_eq!(pgu::build_uninstall_filter("beta.1"), None);
    assert_eq!(pgu::version_for_uninstall("", "postgresql-x64-16", true, true), Some("16".to_string()));
    assert_eq!(pgu::version_for_uninstall("15.4", "postgresql-x64-16", true, true), Some("15.4".to_string()));
    assert_eq!(pgu::version_for_uninstall("", "postgresql-x64-16", false, false), Some("16".to_string()));
    assert_eq!(pgu::version_for_uninstall("", "postgresql", false, false), None);
}

#[test]
fn sc_queryex_pids_and_reports() {
    let out = "SERVICE_NAME: MySQL80\n        STATE              : 4  RUNNING\n        PID                : 4242\n        FLAGS              :\n";
    assert_eq!(service_pids(out), vec!["4242".to_string()]);
    assert!(service_pids("        PID                : 0\n").is_empty());
    let ok = Ok(ProcessOutput { stdout: String::new(), stderr: String::new(), exit_code: 0 });
    assert_eq!(report_pid_kill("42", "MySQL80", &ok), Ok("已终止实例进程 PID 42 (服务 MySQL80)".to_string()));
    let bad = Ok(ProcessOutput { stdout: String::new(), stderr: " denied \n".to_string(), exit_code: 1 });
    assert_eq!(report_pid_kill("42", "MySQL80", &bad), Err("终止 PID 42 失败: denied".to_string()));
}

#[test]
fn uninstall_requests_checked_first() {
    assert_eq!(
        check_uninstall_request(&vec![]),
        Err("请先选择要卸载的实例服务（未选择时操作已取消，避免误卸全部）".to_string())
    );
    assert_eq!(check_uninstall_request(&vec!["MySQL80".to_string(), "MariaDB".to_string()]), Ok(()));
    assert_eq!(
        check_uninstall_request(&vec!["MySQL80".to_string(), "bad name".to_string(), "x;y".to_string()]),
        Err("服务名无效: 服务名不能包含空格".to_string())
    );
}
