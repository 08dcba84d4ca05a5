//! The menu entry of the JetBrains tool and the commands it serves.
use vstd::prelude::*;
use crate::plugin::{ToolFeature, ToolInfo, feature_views, tool_feature, tool_info};
use crate::error::owned;

verus! {

/// The JetBrains tool.
pub struct JetBrainsPlugin;

impl JetBrainsPlugin {
    /// The features of the tool's menu, in order.
    pub open spec fn feature_list() -> Seq<(Seq<char>, Seq<char>, Seq<char>)> {
        seq![
            ("instances"@, "版本检测"@, "check-circle"@),
            ("downloads"@, "可用版本"@, "download"@),
            ("cleanup"@, "卸载清理"@, "trash"@),
        ]
    }

    /// The commands the tool serves, in order.
    pub open spec fn command_list() -> Seq<Seq<char>> {
        seq![
            "detect_jetbrains"@,
            "get_available_jetbrains_versions"@,
            "get_jetbrains_product_versions"@,
            "download_jetbrains"@,
            "uninstall_jetbrains"@,
            "scan_jetbrains_residuals"@,
            "clean_jetbrains_residuals"@,
        ]
    }

    pub fn id(&self) -> (r: &'static str)
        ensures
            r@ == "jetbrains"@,
    {
        "jetbrains"
    }

    pub fn name(&self) -> (r: &'static str)
        ensures
            r@ == "JetBrains"@,
    {
        "JetBrains"
    }

    pub fn icon(&self) -> (r: &'static str)
        ensures
            r@ == "rocket"@,
    {
        "rocket"
    }

    pub fn features(&self) -> (r: Vec<ToolFeature>)
        ensures
            feature_views(r@) == Self::feature_list(),
    {
        let mut r: Vec<ToolFeature> = Vec::new();
        r.push(tool_feature("instances", "版本检测", "check-circle"));
        r.push(tool_feature("downloads", "可用版本", "download"));
        r.push(tool_feature("cleanup", "卸载清理", "trash"));
        assert(feature_views(r@) =~= Self::feature_list());
        r
    }

    pub fn command_names(&self) -> (r: Vec<String>)
        ensures
            r.deep_view() == Self::command_list(),
    {
        let mut r: Vec<String> = Vec::new();
        r.push(owned("detect_jetbrains"));
        r.push(owned("get_available_jetbrains_versions"));
        r.push(owned("get_jetbrains_product_versions"));
        r.push(owned("download_jetbrains"));
        r.push(owned("uninstall_jetbrains"));
        r.push(owned("scan_jetbrains_residuals"));
        r.push(owned("clean_jetbrains_residuals"));
        assert(r.deep_view() =~= Self::command_list());
        r
    }

    /// The menu entry of the tool.
    pub fn tool_info(&self) -> (r: ToolInfo)
        ensures
            r.id@ == "jetbrains"@,
            r.name@ == "JetBrains"@,
            r.icon@ == "rocket"@,
            feature_views(r.features@) == Self::feature_list(),
    {
        tool_info(self.id(), self.name(), self.icon(), self.features())
    }
}

} // verus!
