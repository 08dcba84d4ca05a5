use dev_tools::auto_update::{status_verdict, update_from_release, GitHubRelease};
use dev_tools::mysql::detector::service_folder_would_panic;
use dev_tools::mysql::reset_flow::{build_client_option_file, option_file_name};
use dev_tools::remote_version_cache::{cached_copy, select_version_data, DataSource};
use dev_tools::service_manager::{sc_binary_path, sc_query_state, sc_service_names};
use dev_tools::types::ProcessOutput;

fn ok(stdout: &str) -> Result<ProcessOutput, String> {
    Ok(ProcessOutput { stdout: stdout.to_string(), stderr: String::new(), exit_code: 0 })
}

#[test]
fn sc_query_outputs_are_read() {
    let q = "\nSERVICE_NAME: MySQL80\n        TYPE               : 10  WIN32_OWN_PROCESS\n        STATE              : 4  RUNNING\n";
    assert_eq!(sc_query_state(&ok(q)), Some(4));
    assert_eq!(sc_query_state(&ok("nothing")), None);
    let failed = Ok(ProcessOutput { stdout: q.to_string(), stderr: String::new(), exit_code: 1060 });
    assert_eq!(sc_query_state(&failed), None);
    let list = "SERVICE_NAME: MySQL80\nDISPLAY_NAME: MySQL80\n\nSERVICE_NAME: Spooler\n";
    assert_eq!(sc_service_names(list), vec!["MySQL80".to_string(), "Spooler".to_string()]);
    let qc = "[SC] QueryServiceConfig SUCCESS\n\nSERVICE_NAME: MySQL80\n        BINARY_PATH_NAME   : \"C:\\Program Files\\MySQL\\bin\\mysqld.exe\" --defaults-file=\"C:\\my.ini\" MySQL80\n";
    assert_eq!(
        sc_binary_path(&ok(qc)),
        Some("\"C:\\Program Files\\MySQL\\bin\\mysqld.exe\" --defaults-file=\"C:\\my.ini\" MySQL80".to_string())
    );
    assert_eq!(sc_binary_path(&Err("x".to_string())), None);
}

#[test]
fn option_files_and_service_folders() {
    assert_eq!(build_client_option_file("p@ss"), "[client]\nuser=root\npassword=p@ss\n");
    assert_eq!(option_file_name(42), "devtools_mysql_42.cnf");
    assert!(!service_folder_would_panic("MySQL80"));
    assert!(!service_folder_would_panic("MariaDB"));
    assert!(service_folder_would_panic("MySQL中文"));
    assert!(service_folder_would_panic("MySQL8中"));
}

#[test]
fn update_answers() {
    let none = status_verdict("0.1.0".to_string(), 404).unwrap().unwrap();
    assert!(!none.has_update);
    assert_eq!(none.latest_version, "");
    assert_eq!(status_verdict("0.1.0".to_string(), 500).unwrap().unwrap_err(), "GitHub API 返回状态码: 500");
    assert!(status_verdict("0.1.0".to_string(), 200).is_none());
    let release = GitHubRelease {
        tag_name: "v0.2.0".to_string(),
        name: None,
        body: Some("notes".to_string()),
        html_url: "https://example.com/r".to_string(),
        published_at: "2024-01-01T00:00:00Z".to_string(),
    };
    let info = update_from_release("0.1.0".to_string(), release);
    assert!(info.has_update);
    assert_eq!(info.latest_version, "0.2.0");
    assert_eq!(info.published_at, Some("2024-01-01T00:00:00Z".to_string()));
}

#[test]
fn version_data_sources() {
    assert_eq!(cached_copy(Some("100".to_string()), Some("[1]".to_string()), 200), Some("[1]".to_string()));
    assert_eq!(cached_copy(Some("100".to_string()), Some("[1]".to_string()), 100 + 86401), None);
    assert_eq!(cached_copy(Some("bad".to_string()), Some("[1]".to_string()), 200), None);
    assert_eq!(cached_copy(None, Some("[1]".to_string()), 200), None);
    assert_eq!(select_version_data(Some("c".to_string()), Some("[2]".to_string()), "e"), ("c".to_string(), DataSource::Cache));
    assert_eq!(select_version_data(None, Some("{\"a\":1}".to_string()), "e"), ("{\"a\":1}".to_string(), DataSource::Remote));
    assert_eq!(select_version_data(None, Some("not json".to_string()), "e"), ("e".to_string(), DataSource::Embedded));
    assert_eq!(select_version_data(None, Some(String::new()), "e"), ("e".to_string(), DataSource::Embedded));
    assert_eq!(select_version_data(None, None, "e"), ("e".to_string(), DataSource::Embedded));
}
