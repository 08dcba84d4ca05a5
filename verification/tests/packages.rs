use dev_tools::node::package_manager::{npm_listing_outcome, parse_npm_ls_json};
use dev_tools::python::package_manager::pip_listing_outcome;
use dev_tools::types::ProcessOutput;

fn run(stdout: &str, stderr: &str, code: i32) -> Result<ProcessOutput, String> {
    Ok(ProcessOutput { stdout: stdout.to_string(), stderr: stderr.to_string(), exit_code: code })
}

#[test]
fn parse_npm_ls_json_extracts_packages() {
    let json = r#"{
      "dependencies": {
        "npm": { "version": "10.2.4" },
        "typescript": { "version": "5.3.3" },
        "pnpm": { "version": "8.14.1" }
      }
    }"#;
    let packages = parse_npm_ls_json(json).unwrap();
    assert_eq!(packages.len(), 3);
    assert!(packages.iter().any(|p| p.name == "npm" && p.version == "10.2.4"));
    assert!(packages.iter().any(|p| p.name == "typescript"));
}

#[test]
fn parse_npm_ls_json_handles_empty() {
    let json = r#"{ "dependencies": {} }"#;
    let packages = parse_npm_ls_json(json).unwrap();
    assert_eq!(packages.len(), 0);
}

#[test]
fn parse_npm_ls_json_rejects_missing_deps() {
    let json = r#"{ "name": "global" }"#;
    assert!(parse_npm_ls_json(json).is_err());
}

#[test]
fn npm_packages_sorted_by_lower_name_and_defaulted() {
    let json = r#"{"dependencies":{"Yarn":{"version":"1.22.19"},"corepack":{},"npm":{"version":7}}}"#;
    let ps = parse_npm_ls_json(json).unwrap();
    let names: Vec<&str> = ps.iter().map(|p| p.name.as_str()).collect();
    assert_eq!(names, vec!["corepack", "npm", "Yarn"]);
    assert_eq!(ps[0].version, "未知");
    assert_eq!(ps[1].version, "未知");
    assert_eq!(ps[2].version, "1.22.19");
}

#[test]
fn npm_ls_json_error_messages() {
    assert_eq!(parse_npm_ls_json(r#"[1, 2]"#).unwrap_err(), "输出缺少 dependencies 字段");
    assert_eq!(parse_npm_ls_json(r#"{"dependencies": []}"#).unwrap_err(), "输出缺少 dependencies 字段");
    assert!(parse_npm_ls_json("not json").unwrap_err().starts_with("JSON 解析失败: "));
}

#[test]
fn npm_listing_outcomes() {
    let ok = run(r#"{"dependencies":{"npm":{"version":"10.2.4"}}}"#, "", 0);
    assert_eq!(npm_listing_outcome(&ok).unwrap()[0].version, "10.2.4");
    let partial = run(r#"  {"dependencies":{"pnpm":{"version":"8.14.1"}}}"#, "npm ERR! missing", 1);
    assert_eq!(npm_listing_outcome(&partial).unwrap()[0].name, "pnpm");
    let failed = run("", "npm ERR! code E404\nnpm ERR! more", 1);
    assert_eq!(npm_listing_outcome(&failed).unwrap_err(), "npm ls 执行失败: npm ERR! code E404");
    let silent = run("", "  ", -2);
    assert_eq!(npm_listing_outcome(&silent).unwrap_err(), "npm ls 执行失败，退出码: -2");
    let bad = run("garbage", "", 0);
    assert!(npm_listing_outcome(&bad).unwrap_err().starts_with("npm ls 输出解析失败: JSON 解析失败: "));
    let missing: Result<ProcessOutput, String> = Err("not found".to_string());
    assert_eq!(
        npm_listing_outcome(&missing).unwrap_err(),
        "无法执行 npm 命令（可能未安装 Node.js 或未加入 PATH）: not found"
    );
}

#[test]
fn pip_listing_outcomes() {
    let ok = run(
        r#"[{"name": "pip", "version": "23.3.1"}, {"name": "odd"}, {"name": "requests", "version": "2.31.0"}]"#,
        "",
        0,
    );
    let ps = pip_listing_outcome(&ok).unwrap();
    assert_eq!(ps.len(), 2);
    assert_eq!(ps[0].name, "pip");
    assert_eq!(ps[1].version, "2.31.0");
    assert_eq!(ps[1].summary, "");
    let failed = run("", " No module named pip \n", 1);
    assert_eq!(pip_listing_outcome(&failed).unwrap_err(), "pip list 执行失败: No module named pip");
    let silent = run("", "", 3);
    assert_eq!(pip_listing_outcome(&silent).unwrap_err(), "pip list 执行失败，退出码: 3");
    let bad = run(" {} ", "", 0);
    let e = pip_listing_outcome(&bad).unwrap_err();
    assert!(e.starts_with("pip list 输出解析失败: "));
    assert!(e.ends_with("（原始输出: {}）"));
    let missing: Result<ProcessOutput, String> = Err("spawn".to_string());
    assert_eq!(
        pip_listing_outcome(&missing).unwrap_err(),
        "无法执行 Python/pip 命令（可能未安装 Python 或未加入 PATH）: spawn"
    );
}

use dev_tools::node::version_fetcher::{index_items, parse_index};

#[test]
fn parse_index_sample() {
    let json = r#"[{
      "version": "v20.11.0",
      "date": "2023-11-29",
      "lts": "Iron"
    }, {
      "version": "v21.6.0",
      "date": "2024-01-04",
      "lts": false
    }]"#;
    let versions = index_items(json).unwrap();
    assert_eq!(versions.len(), 2);
    assert!(versions[0].lts_is_string);
    assert!(!versions[1].lts_is_string);
}

#[test]
fn parse_index_sorts_and_skips() {
    let json = r#"[{"version":"v18.19.0","lts":"Hydrogen","date":"2023-11-29"},{"lts":false},{"version":"v21.5.0","lts":false},7,{"version":"v20.11.0","lts":"Iron","date":"2024-01-09"}]"#;
    let rs = parse_index(json).unwrap();
    let vs: Vec<&str> = rs.iter().map(|r| r.version.as_str()).collect();
    assert_eq!(vs, vec!["21.5.0", "20.11.0", "18.19.0"]);
    assert!(rs[1].is_lts);
    assert_eq!(rs[0].date, "");
    assert!(parse_index("{}").unwrap_err().starts_with("JSON 解析失败: "));
}

use dev_tools::python::env_manager::{system_environment, venv_python, virtual_environment};
use dev_tools::types::PythonVersion;

#[test]
fn python_environments() {
    let py = PythonVersion {
        version: "3.12.1".to_string(),
        path: "C:\\Python312".to_string(),
        executable: "C:\\Python312\\python.exe".to_string(),
        manager: "system".to_string(),
        status: "已安装".to_string(),
    };
    let e = system_environment(&py);
    assert_eq!(e.name, "系统 Python 3.12.1");
    assert_eq!(e.env_type, "系统");
    assert_eq!(e.path, "C:\\Python312");
    assert_eq!(venv_python("C:\\Users\\a\\.venvs\\web"), "C:\\Users\\a\\.venvs\\web\\Scripts\\python.exe");
    let v = virtual_environment("C:\\Users\\a\\.venvs\\web", None).unwrap();
    assert_eq!(v.name, "web");
    assert_eq!(v.env_type, "虚拟环境");
    assert_eq!(v.python_version, "未知");
    let w = virtual_environment("C:\\Users\\a\\Envs\\data", Some("3.11.4".to_string())).unwrap();
    assert_eq!(w.python_version, "3.11.4");
}
