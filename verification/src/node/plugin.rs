//! The menu entry of the Node.js tool and the commands it serves.
use vstd::prelude::*;
use crate::plugin::{ToolFeature, ToolInfo, feature_views, tool_feature, tool_info};
use crate::error::owned;

verus! {

/// The Node.js tool.
pub struct NodePlugin;

impl NodePlugin {
    /// The features of the tool's menu, in order.
    pub open spec fn feature_list() -> Seq<(Seq<char>, Seq<char>, Seq<char>)> {
        seq![
            ("instances"@, "版本检测"@, "check-circle"@),
            ("downloads"@, "可用版本"@, "download"@),
            ("envs"@, "环境列表"@, "settings"@),
            ("packages"@, "全局包"@, "box"@),
            ("mirror"@, "镜像源"@, "globe"@),
        ]
    }

    /// The commands the tool serves, in order.
    pub open spec fn command_list() -> Seq<Seq<char>> {
        seq![
            "detect_node"@,
            "detect_default_node"@,
            "list_node_packages"@,
            "list_node_mirrors"@,
            "switch_node_mirror"@,
            "get_available_node_versions"@,
            "get_node_download_url"@,
            "download_node"@,
        ]
    }

    pub fn id(&self) -> (r: &'static str)
        ensures
            r@ == "node"@,
    {
        "node"
    }

    pub fn name(&self) -> (r: &'static str)
        ensures
            r@ == "Node.js"@,
    {
        "Node.js"
    }

    pub fn icon(&self) -> (r: &'static str)
        ensures
            r@ == "code"@,
    {
        "code"
    }

    pub fn features(&self) -> (r: Vec<ToolFeature>)
        ensures
            feature_views(r@) == Self::feature_list(),
    {
        let mut r: Vec<ToolFeature> = Vec::new();
        r.push(tool_feature("instances", "版本检测", "check-circle"));
        r.push(tool_feature("downloads", "可用版本", "download"));
        r.push(tool_feature("envs", "环境列表", "settings"));
        r.push(tool_feature("packages", "全局包", "box"));
        r.push(tool_feature("mirror", "镜像源", "globe"));
        assert(feature_views(r@) =~= Self::feature_list());
        r
    }

    pub fn command_names(&self) -> (r: Vec<String>)
        ensures
            r.deep_view() == Self::command_list(),
    {
        let mut r: Vec<String> = Vec::new();
        r.push(owned("detect_node"));
        r.push(owned("detect_default_node"));
        r.push(owned("list_node_packages"));
        r.push(owned("list_node_mirrors"));
        r.push(owned("switch_node_mirror"));
        r.push(owned("get_available_node_versions"));
        r.push(owned("get_node_download_url"));
        r.push(owned("download_node"));
        assert(r.deep_view() =~= Self::command_list());
        r
    }

    /// The menu entry of the tool.
    pub fn tool_info(&self) -> (r: ToolInfo)
        ensures
            r.id@ == "node"@,
            r.name@ == "Node.js"@,
            r.icon@ == "code"@,
            feature_views(r.features@) == Self::feature_list(),
    {
        tool_info(self.id(), self.name(), self.icon(), self.features())
    }
}

} // verus!
