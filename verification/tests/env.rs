use dev_tools::env::commands::{
    backup_datetime, backup_file_name, common_env_var_names, env_paths_of, is_path_in_env_paths,
    pick_env_variable,
};
use dev_tools::env::detector::{detect_conflicts, detect_tool, split_path_value};
use dev_tools::env::plugin::EnvPlugin;
use dev_tools::types::EnvPath;

fn make_path(path: &str, scope: &str) -> EnvPath {
    EnvPath { path: path.to_string(), scope: scope.to_string(), exists: true, tool: None }
}

#[test]
fn is_path_in_env_paths_matches_case_insensitive() {
    let paths = vec![
        make_path(r"C:\Python312\Scripts", "system"),
        make_path(r"C:\Program Files\Java\jdk-17\bin", "system"),
    ];
    assert!(is_path_in_env_paths(r"c:\python312\scripts", &paths));
    assert!(is_path_in_env_paths(r"C:\PROGRAM FILES\JAVA\JDK-17\bin", &paths));
}

#[test]
fn is_path_in_env_paths_rejects_unknown_path() {
    let paths = vec![make_path(r"C:\Python312\Scripts", "system")];
    assert!(!is_path_in_env_paths(r"C:\Windows\system32", &paths));
    assert!(!is_path_in_env_paths(r"C:\Python312", &paths));
}

#[test]
fn is_path_in_env_paths_empty_list_returns_false() {
    assert!(!is_path_in_env_paths(r"C:\any\path", &[]));
}

#[test]
fn detect_tool_recognizes_java() {
    assert_eq!(detect_tool(r"C:\Program Files\Java\jdk-21\bin"), Some("java".to_string()));
    assert_eq!(detect_tool(r"C:\Java\jdk-17\bin"), Some("java".to_string()));
}

#[test]
fn detect_tool_recognizes_python() {
    assert_eq!(detect_tool(r"C:\Python312\Scripts"), Some("python".to_string()));
    assert_eq!(
        detect_tool(r"C:\Users\xxx\AppData\Local\Programs\Python\Python312"),
        Some("python".to_string())
    );
}

#[test]
fn detect_tool_recognizes_node() {
    assert_eq!(detect_tool(r"C:\Program Files\nodejs"), Some("node".to_string()));
}

#[test]
fn detect_tool_skips_node_modules() {
    assert_eq!(detect_tool(r"C:\project\node_modules\.bin"), None);
}

#[test]
fn detect_tool_recognizes_git() {
    assert_eq!(detect_tool(r"C:\Program Files\Git\cmd"), Some("git".to_string()));
}

#[test]
fn detect_tool_returns_none_for_unknown() {
    assert_eq!(detect_tool(r"C:\Windows\system32"), None);
    assert_eq!(detect_tool(r"C:\Windows"), None);
}

#[test]
fn detect_conflicts_finds_duplicates_case_insensitive() {
    let paths = vec![
        EnvPath { path: r"C:\Python312\Scripts".to_string(), scope: "system".to_string(), exists: true, tool: Some("python".to_string()) },
        EnvPath { path: r"c:\python312\scripts".to_string(), scope: "user".to_string(), exists: true, tool: Some("python".to_string()) },
    ];
    let conflicts = detect_conflicts(&paths);
    assert_eq!(conflicts.len(), 2);
    let dup = conflicts.iter().find(|c| c.kind == "duplicate").unwrap();
    assert_eq!(dup.paths.len(), 1);
}

#[test]
fn detect_conflicts_finds_missing_paths() {
    let paths = vec![EnvPath {
        path: r"C:\nonexistent\path\xyz".to_string(),
        scope: "system".to_string(),
        exists: false,
        tool: None,
    }];
    let conflicts = detect_conflicts(&paths);
    let missing = conflicts.iter().find(|c| c.kind == "missing").unwrap();
    assert_eq!(missing.paths.len(), 1);
}

#[test]
fn detect_conflicts_finds_multi_version() {
    let paths = vec![
        EnvPath { path: r"C:\Java\jdk-17\bin".to_string(), scope: "system".to_string(), exists: true, tool: Some("java".to_string()) },
        EnvPath { path: r"C:\Java\jdk-21\bin".to_string(), scope: "system".to_string(), exists: true, tool: Some("java".to_string()) },
    ];
    let conflicts = detect_conflicts(&paths);
    let mv = conflicts.iter().find(|c| c.kind == "multi_version").unwrap();
    assert_eq!(mv.tool.as_deref(), Some("java"));
    assert_eq!(mv.paths.len(), 2);
}

#[test]
fn detect_conflicts_empty_for_clean_paths() {
    let paths = vec![EnvPath {
        path: r"C:\Windows\system32".to_string(),
        scope: "system".to_string(),
        exists: true,
        tool: None,
    }];
    let conflicts = detect_conflicts(&paths);
    assert!(conflicts.is_empty());
}

#[test]
fn split_path_value_drops_empty_entries() {
    assert_eq!(
        split_path_value(r"C:\a;;C:\b;"),
        vec![r"C:\a".to_string(), r"C:\b".to_string()]
    );
    assert!(split_path_value("").is_empty());
}

#[test]
fn env_paths_carry_scope_exists_and_tool() {
    let entries = vec![r"C:\Program Files\nodejs".to_string(), r"C:\tmp".to_string()];
    let exists = vec![true, false];
    let ps = env_paths_of(&entries, "user", &exists);
    assert_eq!(ps.len(), 2);
    assert_eq!(ps[0].tool, Some("node".to_string()));
    assert_eq!(ps[0].scope, "user");
    assert!(ps[0].exists);
    assert_eq!(ps[1].tool, None);
    assert!(!ps[1].exists);
}

#[test]
fn pick_env_variable_prefers_user_scope() {
    let v = pick_env_variable("JAVA_HOME", Some("u".to_string()), Some("s".to_string())).unwrap();
    assert_eq!(v.scope, "user");
    assert_eq!(v.value, "u");
    let v = pick_env_variable("JAVA_HOME", None, Some("s".to_string())).unwrap();
    assert_eq!(v.scope, "system");
    assert!(pick_env_variable("JAVA_HOME", None, None).is_none());
}

#[test]
fn common_names_start_with_java_home() {
    let names = common_env_var_names();
    assert_eq!(names[0], "JAVA_HOME");
}

#[test]
fn backup_names_and_stamps() {
    assert_eq!(backup_file_name(42), "env-backup-42.json");
    assert_eq!(backup_datetime(86400 + 3661), "epoch+1d 01:01:01");
    assert_eq!(backup_datetime(0), "epoch+0d 00:00:00");
}

#[test]
fn env_plugin_identity() {
    let p = EnvPlugin;
    assert_eq!(p.id(), "env");
    assert_eq!(p.tool_info().features.len(), 1);
    assert!(p.command_names().contains(&"get_env_paths".to_string()));
}
