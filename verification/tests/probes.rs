use dev_tools::java::detector::{java_from_probe, parent_text};
use dev_tools::java::version_fetcher::{feature_versions, get_available_java_versions, release_detail};
use dev_tools::mysql::cleaner::removable_directories;
use dev_tools::node::detector::{node_from_probe, skip_candidate};
use dev_tools::node::version_fetcher::{releases_from_index, IndexItem};
use dev_tools::python::detector::python_from_probes;
use dev_tools::types::{ProcessOutput, ScannedPath};

fn run(stdout: &str, stderr: &str, code: i32) -> Result<ProcessOutput, String> {
    Ok(ProcessOutput { stdout: stdout.to_string(), stderr: stderr.to_string(), exit_code: code })
}

#[test]
fn parent_text_of_executable() {
    assert_eq!(parent_text("C:\\Java\\jdk-17\\bin\\java.exe"), "C:\\Java\\jdk-17\\bin");
    assert_eq!(parent_text("java.exe"), "");
}

#[test]
fn java_probe_reads_stderr_first() {
    let out = run(
        "",
        "openjdk version \"17.0.9\" 2023-10-17\nOpenJDK Runtime Environment Temurin-17.0.9+9",
        0,
    );
    let j = java_from_probe("C:\\jdk\\bin\\java.exe", "system", false, &out).unwrap();
    assert_eq!(j.version, "17.0.9");
    assert_eq!(j.path, "C:\\jdk\\bin");
    assert_eq!(j.executable, "C:\\jdk\\bin\\java.exe");
    assert_eq!(j.vendor, "Adoptium");
    assert_eq!(j.manager, "system");
    assert_eq!(j.status, "已安装");
}

#[test]
fn java_probe_skips_placeholders_and_failures() {
    let ok = run("", "openjdk version \"21.0.1\" 2023-10-17", 0);
    assert!(java_from_probe("C:\\jdk\\bin\\java.exe", "system", true, &ok).is_none());
    let failed = run("", "openjdk version \"21.0.1\"", 1);
    assert!(java_from_probe("C:\\jdk\\bin\\java.exe", "system", false, &failed).is_none());
    let err: Result<ProcessOutput, String> = Err("spawn failed".to_string());
    assert!(java_from_probe("C:\\jdk\\bin\\java.exe", "system", false, &err).is_none());
    let no_version = run("", "something else", 0);
    assert!(java_from_probe("C:\\jdk\\bin\\java.exe", "system", false, &no_version).is_none());
}

#[test]
fn node_candidate_skips() {
    assert!(skip_candidate("C:\\Users\\a\\AppData\\Local\\Microsoft\\WindowsApps\\node.exe", false));
    assert!(skip_candidate("C:\\nodejs\\node.exe", true));
    assert!(!skip_candidate("C:\\nodejs\\node.exe", false));
}

#[test]
fn node_probe_reads_version() {
    let out = run("v20.11.0\n", "", 0);
    let n = node_from_probe("C:\\nodejs\\node.exe", "nvm", false, &out).unwrap();
    assert_eq!(n.version, "20.11.0");
    assert_eq!(n.path, "C:\\nodejs");
    assert_eq!(n.executable, "C:\\nodejs\\node.exe");
    assert_eq!(n.manager, "nvm");
    assert_eq!(n.status, "已安装");
    let bad = run("v20.11.0", "", 2);
    assert!(node_from_probe("C:\\nodejs\\node.exe", "nvm", false, &bad).is_none());
}

#[test]
fn python_probe_uses_real_executable() {
    let real = run("C:\\Python312\\python.exe\r\n", "", 0);
    let version = run("Python 3.12.1\n", "", 0);
    let p = python_from_probes("C:\\Users\\a\\py\\python.exe", false, &real, &version).unwrap();
    assert_eq!(p.version, "3.12.1");
    assert_eq!(p.executable, "C:\\Python312\\python.exe");
    assert_eq!(p.path, "C:\\Python312");
    assert_eq!(p.manager, "system");
    assert_eq!(p.status, "已安装");
}

#[test]
fn python_probe_falls_back_to_path() {
    let real = run("", "", 1);
    let version = run("", "Python 3.8.10", 0);
    let p = python_from_probes("C:\\Py38\\python.exe", false, &real, &version).unwrap();
    assert_eq!(p.version, "3.8.10");
    assert_eq!(p.executable, "C:\\Py38\\python.exe");
    assert_eq!(p.path, "C:\\Py38");
    let none = run("Python", "", 0);
    assert!(python_from_probes("C:\\Py38\\python.exe", false, &real, &none).is_none());
}

#[test]
fn feature_versions_keep_numbers() {
    let items = Some(vec![Some(8u64), None, Some(17), Some(21)]);
    assert_eq!(feature_versions(&items), vec![8u32, 17, 21]);
    assert_eq!(feature_versions(&None), Vec::<u32>::new());
}

#[test]
fn release_detail_reads_first_asset() {
    let d = release_detail(17, Some((Some("17.0.9+9".to_string()), None))).unwrap();
    assert_eq!(d, ("17.0.9+9".to_string(), String::new()));
    assert_eq!(release_detail(22, None), Err("Java 22 无可用版本".to_string()));
}

#[test]
fn available_java_versions_newest_first() {
    let releases = vec![8u32, 17, 21];
    let lts = vec![8u32, 21];
    let details = vec![
        Ok(("8u392".to_string(), "t8".to_string())),
        Err("unreachable".to_string()),
        Ok(("21.0.1".to_string(), "t21".to_string())),
    ];
    let vs = get_available_java_versions(&releases, &lts, &details).unwrap();
    assert_eq!(vs.len(), 2);
    assert_eq!(vs[0].feature_version, 21);
    assert!(vs[0].is_lts);
    assert_eq!(vs[0].most_recent_version, "21.0.1");
    assert_eq!(vs[1].feature_version, 8);
    assert_eq!(vs[1].timestamp, "t8");
    let empty: Vec<u32> = Vec::new();
    assert_eq!(
        get_available_java_versions(&empty, &lts, &Vec::new()).unwrap_err(),
        "Adoptium API 返回空版本列表"
    );
}

#[test]
fn node_index_releases_sorted() {
    let items = vec![
        IndexItem { version: Some("v18.19.0".to_string()), lts_is_string: true, date: Some("2023-11-29".to_string()) },
        IndexItem { version: None, lts_is_string: false, date: None },
        IndexItem { version: Some("v21.5.0".to_string()), lts_is_string: false, date: None },
        IndexItem { version: Some("v20.11.0".to_string()), lts_is_string: true, date: Some("2024-01-09".to_string()) },
    ];
    let rs = releases_from_index(&items);
    let vs: Vec<&str> = rs.iter().map(|r| r.version.as_str()).collect();
    assert_eq!(vs, vec!["21.5.0", "20.11.0", "18.19.0"]);
    assert!(!rs[0].is_lts);
    assert_eq!(rs[0].date, "");
    assert!(rs[1].is_lts);
    assert_eq!(rs[2].date, "2023-11-29");
}

#[test]
fn removable_directories_skip_missing_and_excluded() {
    let dirs = vec![
        ScannedPath { path: "C:\\ProgramData\\MySQL".to_string(), category: "data".to_string(), exists: true },
        ScannedPath { path: "C:\\xampp\\mysql".to_string(), category: "install".to_string(), exists: true },
        ScannedPath { path: "C:\\Program Files\\MySQL".to_string(), category: "install".to_string(), exists: false },
        ScannedPath { path: "c:\\WAMP64\\bin\\mysql".to_string(), category: "install".to_string(), exists: true },
        ScannedPath { path: "D:\\mysql".to_string(), category: "install".to_string(), exists: true },
    ];
    let kept = removable_directories(&dirs);
    let ps: Vec<&str> = kept.iter().map(|d| d.path.as_str()).collect();
    assert_eq!(ps, vec!["C:\\ProgramData\\MySQL", "D:\\mysql"]);
    assert_eq!(kept[0].category, "data");
}

use dev_tools::detector_base::{is_instance_valid, validate_instances};
use dev_tools::postgresql::detector::{
    has_service_instance, service_instance, service_only_instance, unserviced_instance,
};
use dev_tools::types::PostgresqlInstance;

fn pg(path: &str, service: Option<&str>) -> PostgresqlInstance {
    PostgresqlInstance {
        version: "16.1".to_string(),
        architecture: "x86_64".to_string(),
        status: "启动".to_string(),
        path: path.to_string(),
        service_name: service.map(|s| s.to_string()),
        port: Some(5432),
        is_residual: false,
        data_dir: None,
    }
}

#[test]
fn instance_validity_needs_path_or_service() {
    assert!(is_instance_valid(&pg("C:\\pg\\bin", None), true, false));
    assert!(!is_instance_valid(&pg("", None), true, true));
    assert!(is_instance_valid(&pg("", Some("postgresql-x64-16")), false, true));
    assert!(!is_instance_valid(&pg("C:\\pg\\bin", Some("postgresql-x64-16")), false, false));
}

#[test]
fn validate_instances_marks_residuals() {
    let xs = vec![pg("C:\\a\\bin", None), pg("C:\\b\\bin", Some("pg-b")), pg("", Some("pg-c"))];
    let out = validate_instances(xs, &vec![true, false, true], &vec![false, false, true]);
    assert_eq!(out.len(), 3);
    assert!(!out[0].is_residual);
    assert!(out[1].is_residual);
    assert!(!out[2].is_residual);
    assert_eq!(out[1].path, "C:\\b\\bin");
}

#[test]
fn pg_service_instance_versions() {
    let i = service_instance(
        "postgresql-x64-16".to_string(),
        "启动".to_string(),
        "C:\\pg\\bin".to_string(),
        Some("psql (PostgreSQL) 16.1"),
        Some(5433),
        Some("C:\\pg\\data".to_string()),
    );
    assert_eq!(i.version, "16.1");
    assert_eq!(i.architecture, "x86_64");
    assert_eq!(i.port, Some(5433));
    assert_eq!(i.data_dir.as_deref(), Some("C:\\pg\\data"));
    assert_eq!(i.service_name.as_deref(), Some("postgresql-x64-16"));
    let failed = service_instance("postgresql-x64-15".to_string(), "停止".to_string(), "C:\\pg15\\bin".to_string(), None, None, None);
    assert_eq!(failed.version, "15");
    assert_eq!(failed.architecture, "未知");
    let unnamed = service_instance("postgres".to_string(), "停止".to_string(), String::new(), None, None, None);
    assert_eq!(unnamed.version, "未知版本");
}

#[test]
fn pg_service_only_and_unserviced_instances() {
    let s = service_only_instance("postgresql-x64-14".to_string(), "停止".to_string());
    assert_eq!(s.version, "14");
    assert_eq!(s.architecture, "未知");
    assert_eq!(s.path, "");
    assert!(s.port.is_none() && s.data_dir.is_none());
    let u = unserviced_instance("postgres (PostgreSQL) 13.4", "D:\\pg13\\bin".to_string(), None, None);
    assert_eq!(u.version, "13.4");
    assert_eq!(u.status, "未安装服务");
    assert!(u.service_name.is_none());
    let blank = unserviced_instance("no version here", "D:\\pg\\bin".to_string(), None, None);
    assert_eq!(blank.version, "未知");
    let list = vec![s];
    assert!(has_service_instance(&list, "postgresql-x64-14"));
    assert!(!has_service_instance(&list, "postgresql-x64-16"));
}

use dev_tools::java::version_fetcher::{available_release_lists, feature_release_detail};

#[test]
fn adoptium_release_lists() {
    let body = r#"{"available_lts_releases":[8,11,17,21],"available_releases":[8,11,17,"x",21,22.5,23],"most_recent_lts":21}"#;
    let (all, lts) = available_release_lists(body).unwrap();
    assert_eq!(all, vec![8, 11, 17, 21, 23]);
    assert_eq!(lts, vec![8, 11, 17, 21]);
    let (none, no_lts) = available_release_lists(r#"{"other":1}"#).unwrap();
    assert!(none.is_empty() && no_lts.is_empty());
    assert!(available_release_lists("<html>").unwrap_err().starts_with("JSON 解析失败: "));
}

#[test]
fn adoptium_feature_detail() {
    let body = r#"[{"timestamp":"2024-01-17T09:15:07Z","version_data":{"openjdk_version":"21.0.2+13-LTS","major":21}},{"timestamp":"older"}]"#;
    assert_eq!(
        feature_release_detail(21, body),
        Ok(("21.0.2+13-LTS".to_string(), "2024-01-17T09:15:07Z".to_string()))
    );
    assert_eq!(feature_release_detail(22, r#"[{}]"#), Ok((String::new(), String::new())));
    assert_eq!(feature_release_detail(24, "[]"), Err("Java 24 无可用版本".to_string()));
    assert!(feature_release_detail(24, "{}").unwrap_err().starts_with("JSON 解析失败: "));
}
