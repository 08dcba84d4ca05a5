use dev_tools::runtime_switcher::{set_default_runtime, to_wide_with_nul};

#[test]
fn rejects_empty_path() {
    let r = set_default_runtime("java", "   ");
    assert!(r.is_err());
    assert!(r.unwrap_err().contains("版本路径不能为空"));
}

#[test]
fn rejects_unknown_tool() {
    let r = set_default_runtime("rust", "/some/path");
    assert!(r.is_err());
    assert!(r.unwrap_err().contains("不支持的工具类型"));
}

#[test]
fn node_returns_hint_message() {
    let r = set_default_runtime("node", "C:\\node\\v20");
    assert!(r.is_err());
    let msg = r.unwrap_err();
    assert!(msg.contains("nvm-windows"));
}

#[test]
fn to_wide_with_nul_appends_zero() {
    let w = to_wide_with_nul("hi");
    assert_eq!(w, vec!['h' as u16, 'i' as u16, 0]);
}

#[test]
fn to_wide_with_nul_handles_empty_string() {
    let w = to_wide_with_nul("");
    assert_eq!(w, vec![0]);
}

#[test]
fn to_wide_with_nul_handles_non_ascii() {
    let w = to_wide_with_nul("中");
    assert_eq!(w.len(), 2);
    assert_eq!(w[1], 0);
}

#[test]
fn to_wide_with_nul_uses_surrogate_pairs() {
    let w = to_wide_with_nul("😀");
    assert_eq!(w, vec![0xD83D, 0xDE00, 0]);
}

#[test]
fn java_and_python_switches_name_their_variable() {
    let s = set_default_runtime("java", r"C:\jdk-21").unwrap();
    assert_eq!(s.env_name, "JAVA_HOME");
    assert_eq!(s.value, r"C:\jdk-21");
    assert_eq!(s.message, r"已设置 JAVA_HOME=C:\jdk-21（仅影响新启动的进程）");
    let s = set_default_runtime("python", r"C:\Python312").unwrap();
    assert_eq!(s.env_name, "PYTHONHOME");
}
