//! The menu entry of the Python tool and the commands it serves.
use vstd::prelude::*;
use crate::plugin::{ToolFeature, ToolInfo, feature_views, tool_feature, tool_info};
use crate::error::owned;

verus! {

/// The Python tool.
pub struct PythonPlugin;

impl PythonPlugin {
    /// The features of the tool's menu, in order.
    pub open spec fn feature_list() -> Seq<(Seq<char>, Seq<char>, Seq<char>)> {
        seq![
            ("instances"@, "版本检测"@, "check-circle"@),
            ("downloads"@, "可用版本"@, "download"@),
            ("envs"@, "环境列表"@, "settings"@),
            ("packages"@, "已安装包"@, "box"@),
            ("mirror"@, "镜像源"@, "globe"@),
        ]
    }

    /// The commands the tool serves, in order.
    pub open spec fn command_list() -> Seq<Seq<char>> {
        seq![
            "detect_python"@,
            "detect_default_python"@,
            "list_python_environments"@,
            "list_python_packages"@,
            "list_python_mirrors"@,
            "switch_python_mirror"@,
            "get_available_python_versions"@,
            "download_python"@,
            "get_python_download_url"@,
        ]
    }

    pub fn id(&self) -> (r: &'static str)
        ensures
            r@ == "python"@,
    {
        "python"
    }

    pub fn name(&self) -> (r: &'static str)
        ensures
            r@ == "Python"@,
    {
        "Python"
    }

    pub fn icon(&self) -> (r: &'static str)
        ensures
            r@ == "code"@,
    {
        "code"
    }

    pub fn features(&self) -> (r: Vec<ToolFeature>)
        ensures
            feature_views(r@) == Self::feature_list(),
    {
        let mut r: Vec<ToolFeature> = Vec::new();
        r.push(tool_feature("instances", "版本检测", "check-circle"));
        r.push(tool_feature("downloads", "可用版本", "download"));
        r.push(tool_feature("envs", "环境列表", "settings"));
        r.push(tool_feature("packages", "已安装包", "box"));
        r.push(tool_feature("mirror", "镜像源", "globe"));
        assert(feature_views(r@) =~= Self::feature_list());
        r
    }

    pub fn command_names(&self) -> (r: Vec<String>)
        ensures
            r.deep_view() == Self::command_list(),
    {
        let mut r: Vec<String> = Vec::new();
        r.push(owned("detect_python"));
        r.push(owned("detect_default_python"));
        r.push(owned("list_python_environments"));
        r.push(owned("list_python_packages"));
        r.push(owned("list_python_mirrors"));
        r.push(owned("switch_python_mirror"));
        r.push(owned("get_available_python_versions"));
        r.push(owned("download_python"));
        r.push(owned("get_python_download_url"));
        assert(r.deep_view() =~= Self::command_list());
        r
    }

    /// The menu entry of the tool.
    pub fn tool_info(&self) -> (r: ToolInfo)
        ensures
            r.id@ == "python"@,
            r.name@ == "Python"@,
            r.icon@ == "code"@,
            feature_views(r.features@) == Self::feature_list(),
    {
        tool_info(self.id(), self.name(), self.icon(), self.features())
    }
}

} // verus!
