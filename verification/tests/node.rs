use dev_tools::node::mirror_manager::{
    current_registry, get_default_mirrors, mark_active_registry, normalize_registry, switch_outcome,
};
use dev_tools::node::package_manager::{checked_node_command, validate_node_path};
use dev_tools::node::plugin::NodePlugin;
use dev_tools::node::version_fetcher::{
    compare_keys, get_download_url, index_url, keep_latest, release_mirrors, sort_newest_first,
    strip_v_prefix, validate_version_string,
};
use dev_tools::types::{AvailableNodeVersion, ProcessOutput};

#[test]
fn normalize_registry_strips_trailing_slash() {
    assert_eq!(normalize_registry("https://registry.npmjs.org/"), "https://registry.npmjs.org");
    assert_eq!(normalize_registry("https://registry.npmmirror.com"), "https://registry.npmmirror.com");
}

#[test]
fn validate_node_path_rejects_invalid() {
    assert!(validate_node_path("python.exe").is_err());
    assert!(validate_node_path("C:\\..\\node.exe").is_err());
}

#[test]
fn validate_node_path_accepts_valid() {
    assert!(validate_node_path("node").is_ok());
    assert!(validate_node_path("C:\\Program Files\\nodejs\\node.exe").is_ok());
}

#[test]
fn node_path_messages() {
    assert_eq!(validate_node_path("python.exe"), Err("路径必须指向 node.exe".to_string()));
    assert_eq!(validate_node_path("C:\\..\\NODE.EXE"), Err("路径不能包含 ..".to_string()));
    assert_eq!(checked_node_command(None), Ok("node".to_string()));
    assert_eq!(
        checked_node_command(Some("x.exe".to_string())),
        Err("Node 路径验证失败: 路径必须指向 node.exe".to_string())
    );
}

fn out(stdout: &str, stderr: &str, code: i32) -> Result<ProcessOutput, String> {
    Ok(ProcessOutput { stdout: stdout.to_string(), stderr: stderr.to_string(), exit_code: code })
}

#[test]
fn registry_reported_by_npm() {
    assert_eq!(current_registry(&out("https://registry.npmmirror.com/\n", "", 0)), Some("https://registry.npmmirror.com".to_string()));
    assert_eq!(current_registry(&out("undefined", "", 0)), Some("https://registry.npmjs.org".to_string()));
    assert_eq!(current_registry(&out("", "boom", 1)), None);
    assert_eq!(current_registry(&Err("spawn failed".to_string())), None);
}

#[test]
fn active_registry_is_marked() {
    let mut ms = get_default_mirrors();
    mark_active_registry(&mut ms, Some("https://registry.npmmirror.com"));
    assert_eq!(ms.iter().filter(|m| m.active).count(), 1);
    assert!(!ms[0].active);
}

#[test]
fn registry_switch_answers() {
    assert_eq!(switch_outcome(&out("", "", 0), "阿里云"), Ok("已成功切换到 阿里云".to_string()));
    assert_eq!(switch_outcome(&out("", "  ", 2), "x"), Err("切换失败，退出码: 2".to_string()));
    assert_eq!(switch_outcome(&out("", " denied ", -1), "x"), Err("切换失败: denied".to_string()));
    assert_eq!(switch_outcome(&Err("e".to_string()), "x"), Err("执行 npm 命令失败: e".to_string()));
}

#[test]
fn node_versions_validated() {
    assert!(validate_version_string("20.11.0").is_ok());
    assert_eq!(validate_version_string(""), Err("版本号不能为空".to_string()));
    assert_eq!(validate_version_string("20.11"), Err("版本号格式无效（需形如 20.11.0）".to_string()));
}

#[test]
fn node_download_links() {
    assert_eq!(
        get_download_url("20.11.0", "x64"),
        "https://registry.npmmirror.com/-/binary/node/v20.11.0/node-v20.11.0-x64.msi"
    );
    assert_eq!(index_url("https://nodejs.org/dist/"), "https://nodejs.org/dist/index.json");
    assert_eq!(release_mirrors().len(), 4);
    assert_eq!(strip_v_prefix("v20.1.0"), "20.1.0");
    assert_eq!(strip_v_prefix("20.1.0"), "20.1.0");
}

#[test]
fn version_keys_compare_lexicographically() {
    assert_eq!(compare_keys(&vec![20, 1], &vec![20, 1, 0]), -1);
    assert_eq!(compare_keys(&vec![9, 9], &vec![10]), -1);
    assert_eq!(compare_keys(&vec![3], &vec![3]), 0);
    assert_eq!(compare_keys(&vec![4, 0], &vec![3, 9]), 1);
}

fn rel(v: &str) -> AvailableNodeVersion {
    AvailableNodeVersion { version: v.to_string(), is_lts: false, date: String::new() }
}

#[test]
fn node_versions_sorted_newest_first() {
    let sorted = sort_newest_first(vec![rel("18.0.0"), rel("20.11.0"), rel("9.9.9"), rel("20.2.0")]);
    let order: Vec<&str> = sorted.iter().map(|r| r.version.as_str()).collect();
    assert_eq!(order, vec!["20.11.0", "20.2.0", "18.0.0", "9.9.9"]);
}

#[test]
fn keep_latest_truncates_to_one_hundred() {
    let mut vs: Vec<AvailableNodeVersion> = (0..150).map(|i| rel(&format!("{}.0.0", i))).collect();
    keep_latest(&mut vs);
    assert_eq!(vs.len(), 100);
    assert_eq!(vs[99].version, "99.0.0");
    let mut few = vec![rel("1.0.0")];
    keep_latest(&mut few);
    assert_eq!(few.len(), 1);
}

#[test]
fn node_plugin_identity() {
    assert_eq!(NodePlugin.id(), "node");
}
