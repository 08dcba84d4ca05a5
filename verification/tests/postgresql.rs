use dev_tools::detector_base::{dedupe_instances, merge_instance};
use dev_tools::postgresql::cleaner::{build_instance_targets, derive_major_version};
use dev_tools::postgresql::detector::{
    postgresql_info,
    data_dir_from_bin, extract_major_from_service_name, parse_architecture,
    parse_port_from_config, parse_version, version_and_arch,
};
use dev_tools::postgresql::fetcher::{
    build_download_link, check_download_request, extract_filename,
    get_available_postgresql_versions, PostgresVersionCatalog,
};
use dev_tools::postgresql::password_reset::{
    build_alter_password_sql, build_psql_args, escape_postgresql_password, port_or_default,
    reset_outcome, trust_start_failure, validate_password_strength,
};
use dev_tools::postgresql::plugin::PostgresqlPlugin;
use dev_tools::types::{PostgresqlInstance, ProcessOutput};

#[test]
fn escape_password_doubles_single_quotes() {
    assert_eq!(escape_postgresql_password("normal"), "normal");
    assert_eq!(escape_postgresql_password("it's"), "it''s");
    assert_eq!(escape_postgresql_password("a'b'c"), "a''b''c");
}

#[test]
fn validate_password_rejects_short() {
    assert!(validate_password_strength("123").is_err());
    assert!(validate_password_strength("12345").is_err());
}

#[test]
fn validate_password_accepts_normal() {
    assert!(validate_password_strength("123456").is_ok());
    assert!(validate_password_strength("Password1").is_ok());
    assert!(validate_password_strength("SecurePass123!").is_ok());
}

#[test]
fn pg_statements_and_arguments() {
    assert_eq!(build_alter_password_sql("it's"), "ALTER USER postgres PASSWORD 'it''s';");
    assert_eq!(
        build_psql_args(5433, "SELECT 1;"),
        vec!["-U", "postgres", "-h", "127.0.0.1", "-p", "5433", "-c", "SELECT 1;"]
            .into_iter()
            .map(String::from)
            .collect::<Vec<String>>()
    );
    assert_eq!(port_or_default(None), 5432);
    assert_eq!(port_or_default(Some(6000)), 6000);
}

#[test]
fn pg_reset_answers() {
    assert_eq!(reset_outcome(true, true), Ok("密码重置成功，连接测试通过！".to_string()));
    assert!(reset_outcome(true, false).is_ok());
    assert!(reset_outcome(false, true).is_err());
    let failed = Ok(ProcessOutput { stdout: String::new(), stderr: "no".to_string(), exit_code: 2 });
    assert_eq!(trust_start_failure(&failed), Some("启动服务失败: no".to_string()));
    let ok = Ok(ProcessOutput { stdout: String::new(), stderr: String::new(), exit_code: 0 });
    assert_eq!(trust_start_failure(&ok), None);
    assert_eq!(trust_start_failure(&Err("x".to_string())), Some("启动服务异常: x".to_string()));
}

#[test]
fn pg_detection_helpers() {
    assert_eq!(extract_major_from_service_name("postgresql-x64-16"), Some("16".to_string()));
    assert_eq!(extract_major_from_service_name("postgresql"), None);
    assert_eq!(parse_version("psql (PostgreSQL) 16.2"), Some("16.2".to_string()));
    assert_eq!(parse_version("postgres (PostgreSQL) 15.4.1"), Some("15.4.1".to_string()));
    assert_eq!(parse_architecture("compiled by Visual C++ build 1937, 64-bit x64"), "x86_64");
    assert_eq!(parse_port_from_config("#port = 1\n  port = 5433 # custom\n"), Some(5433));
    assert_eq!(data_dir_from_bin(r"C:\PostgreSQL\16\bin"), Some(r"C:\PostgreSQL\16\data".to_string()));
    let (v, a) = version_and_arch(None, "postgresql-x64-15");
    assert_eq!(v, "15");
    assert_eq!(a, "未知");
    let (v, a) = version_and_arch(None, "postgresql");
    assert_eq!(v, "未知版本");
    assert_eq!(a, "未知");
    let (v, a) = version_and_arch(Some("psql (PostgreSQL) 15.4 x64"), "postgresql-x64-15");
    assert_eq!(v, "15.4");
    assert_eq!(a, "x86_64");
}

#[test]
fn pg_cleaner_targets() {
    assert_eq!(derive_major_version("16.2"), "16");
    let inst = PostgresqlInstance {
        version: "16.2".to_string(),
        architecture: "x86_64".to_string(),
        status: "停止".to_string(),
        path: r"C:\PostgreSQL\16\bin".to_string(),
        service_name: Some("postgresql-x64-16".to_string()),
        port: Some(5432),
        is_residual: false,
        data_dir: Some(r"C:\PostgreSQL\16\data".to_string()),
    };
    let t = build_instance_targets(&inst, true);
    assert_eq!(t.major_version, "16");
    assert_eq!(t.install_dir.as_deref(), Some(r"C:\PostgreSQL\16"));
}

#[test]
fn pg_download_catalog() {
    let catalog = PostgresVersionCatalog { versions: vec!["16.2-1".to_string(), "15.6-1".to_string()] };
    let vs = get_available_postgresql_versions(&catalog).unwrap();
    assert_eq!(vs.len(), 2);
    assert_eq!(vs[0].download_link, build_download_link("16.2-1"));
    assert_eq!(
        build_download_link("16.2-1"),
        "https://get.enterprisedb.com/postgresql/postgresql-16.2-1-windows-x64.exe"
    );
    assert_eq!(extract_filename(&vs[0].download_link), "postgresql-16.2-1-windows-x64.exe");
    assert_eq!(check_download_request(&vs, "15.6-1"), Ok("postgresql:15.6-1".to_string()));
    assert_eq!(check_download_request(&vs, ""), Err("版本号为空".to_string()));
    assert_eq!(check_download_request(&vs, "9.0"), Err("未找到 PostgreSQL 9.0 版本".to_string()));
}

#[test]
fn pg_plugin_identity() {
    assert_eq!(PostgresqlPlugin.id(), "postgresql");
}

#[test]
fn merge_keeps_existing_data_directory() {
    let make = |path: &str, dir: &str, port: Option<u16>| PostgresqlInstance {
        version: "16.2".to_string(),
        architecture: "64位".to_string(),
        status: "启动".to_string(),
        path: path.to_string(),
        service_name: Some("postgresql-x64-16".to_string()),
        port,
        is_residual: false,
        data_dir: Some(dir.to_string()),
    };
    let mut existing = make(r"C:\pg\bin", r"C:\pg\data", None);
    merge_instance(&mut existing, make(r"C:\pg\bin", r"D:\other\data", Some(5432)));
    assert_eq!(existing.data_dir.as_deref(), Some(r"C:\pg\data"));
    assert_eq!(existing.port, Some(5432));
    let kept = dedupe_instances(vec![
        make(r"C:\pg\bin", r"C:\first\data", None),
        make(r"C:\pg\bin", r"C:\second\data", Some(5433)),
    ]);
    assert_eq!(kept.len(), 1);
    assert_eq!(kept[0].data_dir.as_deref(), Some(r"C:\first\data"));
    assert_eq!(kept[0].port, Some(5433));
}

#[test]
fn detection_result_counts_instances() {
    let make = |path: &str| PostgresqlInstance {
        version: "16.2".to_string(),
        architecture: "64位".to_string(),
        status: "启动".to_string(),
        path: path.to_string(),
        service_name: None,
        port: None,
        is_residual: false,
        data_dir: None,
    };
    let info = postgresql_info(vec![make("a"), make("b"), make("c")]);
    assert_eq!(info.total_count, 3);
    assert_eq!(info.instances[2].path, "c");
    assert_eq!(postgresql_info(Vec::new()).total_count, 0);
}
