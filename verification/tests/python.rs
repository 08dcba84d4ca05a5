use dev_tools::python::mirror_manager::{
    current_mirror, get_default_mirrors, mark_active_mirror, resolve_python_cmd, switch_outcome,
};
use dev_tools::python::package_manager::validate_python_path;
use dev_tools::python::plugin::PythonPlugin;
use dev_tools::python::version_fetcher::{
    get_download_url, is_stable_version, offered_versions, python_arch_name, release_mirrors,
    sort_newest_first, validate_version_string, versions_in_listing,
};
use dev_tools::types::ProcessOutput;

#[test]
fn validate_version_string_rejects_empty() {
    assert!(validate_version_string("").is_err());
}

#[test]
fn validate_version_string_rejects_invalid_format() {
    assert!(validate_version_string("3").is_err());
    assert!(validate_version_string("3.12").is_err());
    assert!(validate_version_string("abc").is_err());
}

#[test]
fn validate_version_string_rejects_path_traversal() {
    assert!(validate_version_string("3.12.0/../").is_err());
    assert!(validate_version_string("3.12.0\\windows").is_err());
}

#[test]
fn validate_version_string_accepts_valid() {
    assert!(validate_version_string("3.12.0").is_ok());
    assert!(validate_version_string("3.11.5").is_ok());
    assert!(validate_version_string("3.10.11").is_ok());
}

#[test]
fn get_download_url_uses_huawei_mirror() {
    let url = get_download_url("3.12.0", python_arch_name("x86_64"));
    assert!(url.contains("mirrors.huaweicloud.com"));
    assert!(url.contains("python-3.12.0-"));
    assert!(url.ends_with(".exe"));
}

#[test]
fn get_system_architecture_returns_non_empty() {
    let arch = python_arch_name("x86_64");
    assert!(!arch.is_empty());
    assert!(arch == "amd64" || arch == "win32" || arch == "arm64");
}

#[test]
fn stable_version_regex_matches_valid() {
    assert!(is_stable_version("3.12.0"));
    assert!(is_stable_version("3.11.5"));
    assert!(is_stable_version("2.7.18"));
    assert!(!is_stable_version("3.12.0rc1"));
    assert!(!is_stable_version("3.12"));
}

#[test]
fn arch_names() {
    assert_eq!(python_arch_name("x86"), "win32");
    assert_eq!(python_arch_name("aarch64"), "arm64");
    assert_eq!(python_arch_name("x86_64"), "amd64");
    assert_eq!(
        get_download_url("3.12.0", "amd64"),
        "https://mirrors.huaweicloud.com/python/3.12.0/python-3.12.0-amd64.exe"
    );
    assert_eq!(release_mirrors().len(), 4);
}

#[test]
fn listing_versions_are_captured() {
    let html = r#"<a href="3.12.0/">3.12.0/</a> <a href="3.9.1/">3.9.1/</a> <a href="doc/">doc/</a>"#;
    assert_eq!(versions_in_listing(html), vec!["3.12.0".to_string(), "3.9.1".to_string()]);
}

#[test]
fn python_versions_sorted_and_offered() {
    let sorted = sort_newest_first(vec!["3.9.1".to_string(), "3.12.0".to_string(), "2.7.18".to_string()]);
    assert_eq!(sorted, vec!["3.12.0".to_string(), "3.9.1".to_string(), "2.7.18".to_string()]);
    let offered = offered_versions(&sorted);
    assert_eq!(offered.len(), 3);
    assert!(offered.iter().all(|v| v.is_stable));
    let many: Vec<String> = (0..60).map(|i| format!("3.{}.0", i)).collect();
    assert_eq!(offered_versions(&many).len(), 50);
}

#[test]
fn python_path_rules() {
    assert!(validate_python_path("python").is_ok());
    assert!(validate_python_path("C:\\Python312\\PYTHON.EXE").is_ok());
    assert_eq!(
        validate_python_path("C:\\x\\node.exe"),
        Err("路径必须指向 python.exe 或 python3.exe".to_string())
    );
    assert_eq!(validate_python_path("C:\\..\\python.exe"), Err("路径不能包含 ..".to_string()));
    assert_eq!(resolve_python_cmd(None), Ok("python".to_string()));
}

fn out(stdout: &str, stderr: &str, code: i32) -> Result<ProcessOutput, String> {
    Ok(ProcessOutput { stdout: stdout.to_string(), stderr: stderr.to_string(), exit_code: code })
}

#[test]
fn pip_index_handling() {
    assert_eq!(current_mirror(&out(" https://pypi.org/simple/\n", "", 0)), Some("https://pypi.org/simple/".to_string()));
    assert_eq!(current_mirror(&out("  ", "", 0)), None);
    let mut ms = get_default_mirrors();
    mark_active_mirror(&mut ms, "https://pypi.tuna.tsinghua.edu.cn/simple/");
    assert_eq!(ms.iter().filter(|m| m.active).count(), ms.iter().filter(|m| m.url == "https://pypi.tuna.tsinghua.edu.cn/simple/").count());
    assert!(!ms[0].active);
    assert_eq!(switch_outcome(&out("", "", 0), "清华大学"), Ok("已成功切换到 清华大学".to_string()));
    assert_eq!(switch_outcome(&out("", "bad", 1), "x"), Err("切换失败: bad".to_string()));
    assert_eq!(switch_outcome(&Err("e".to_string()), "x"), Err("执行命令失败: e".to_string()));
}

#[test]
fn python_plugin_identity() {
    assert_eq!(PythonPlugin.id(), "python");
}
