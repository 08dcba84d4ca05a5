//! Making an installed runtime the user's default: which user environment
//! variable to set, and the message shown afterwards.
use vstd::prelude::*;
use crate::text::{utf16, utf16_units, trim, trim_chars, to_chars, from_chars, push_str, str_eq};
use crate::error::owned;

verus! {

/// The registry key of the user's environment variables, under `HKEY_CURRENT_USER`.
pub const ENV_SUBKEY: &'static str = "Environment";

/// UTF-16 units of `s` followed by a terminating zero.
pub fn to_wide_with_nul(s: &str) -> (r: Vec<u16>)
    ensures
        r@ == utf16(s@).push(0),
{
    let v = to_chars(s);
    let mut w = utf16_units(&v);
    w.push(0);
    w
}

/// The user environment variable to set, its value, and the message shown once it is set.
#[derive(Debug, Clone)]
pub struct RuntimeSwitch {
    pub env_name: String,
    pub value: String,
    pub message: String,
}

/// Why a switch is refused, or the variable it sets: `JAVA_HOME` for Java,
/// `PYTHONHOME` for Python; Node.js has no such variable.
pub open spec fn switch_target(tool: Seq<char>, version_path: Seq<char>) -> Result<Seq<char>, Seq<char>> {
    if trim(version_path).len() == 0 {
        Err("版本路径不能为空"@)
    } else if tool == "java"@ {
        Ok("JAVA_HOME"@)
    } else if tool == "python"@ {
        Ok("PYTHONHOME"@)
    } else if tool == "node"@ {
        Err("Node.js 没有统一的默认版本切换机制，请手动调整 PATH 优先级或使用 nvm-windows"@)
    } else {
        Err("不支持的工具类型: "@ + tool)
    }
}

/// Plans making the runtime at `version_path` the default for `tool` (`java`,
/// `python` or `node`): the variable and value to write under
/// `HKEY_CURRENT_USER\Environment`, and the message; or why it cannot be done.
pub fn set_default_runtime(tool: &str, version_path: &str) -> (r: Result<RuntimeSwitch, String>)
    ensures
        match switch_target(tool@, version_path@) {
            Ok(name) => r matches Ok(s) && s.env_name@ == name && s.value@ == version_path@ && s.message@
                == "已设置 "@ + name + "="@ + version_path@ + "（仅影响新启动的进程）"@,
            Err(m) => r matches Err(e) && e@ == m,
        },
{
    let p = to_chars(version_path);
    let t = trim_chars(&p);
    if t.len() == 0 {
        return Err(owned("版本路径不能为空"));
    }
    let env_name = if str_eq(tool, "java") {
        owned("JAVA_HOME")
    } else if str_eq(tool, "python") {
        owned("PYTHONHOME")
    } else if str_eq(tool, "node") {
        return Err(owned("Node.js 没有统一的默认版本切换机制，请手动调整 PATH 优先级或使用 nvm-windows"));
    } else {
        let mut m: Vec<char> = Vec::new();
        push_str(&mut m, "不支持的工具类型: ");
        push_str(&mut m, tool);
        return Err(from_chars(&m));
    };
    let mut m: Vec<char> = Vec::new();
    push_str(&mut m, "已设置 ");
    push_str(&mut m, env_name.as_str());
    push_str(&mut m, "=");
    push_str(&mut m, version_path);
    push_str(&mut m, "（仅影响新启动的进程）");
    Ok(RuntimeSwitch { env_name, value: owned(version_path), message: from_chars(&m) })
}

} // verus!
