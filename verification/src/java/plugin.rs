//! The menu entry of the Java tool and the commands it serves.
use vstd::prelude::*;
use crate::plugin::{ToolFeature, ToolInfo, feature_views, tool_feature, tool_info};
use crate::error::owned;

verus! {

/// The Java tool.
pub struct JavaPlugin;

impl JavaPlugin {
    /// The features of the tool's menu, in order.
    pub open spec fn feature_list() -> Seq<(Seq<char>, Seq<char>, Seq<char>)> {
        seq![
            ("instances"@, "版本检测"@, "check-circle"@),
            ("downloads"@, "可用版本"@, "download"@),
            ("mirror"@, "Maven 镜像"@, "globe"@),
        ]
    }

    /// The commands the tool serves, in order.
    pub open spec fn command_list() -> Seq<Seq<char>> {
        seq![
            "detect_java"@,
            "detect_default_java"@,
            "get_available_java_versions"@,
            "get_java_download_url"@,
            "list_java_mirrors"@,
            "switch_java_mirror"@,
        ]
    }

    pub fn id(&self) -> (r: &'static str)
        ensures
            r@ == "java"@,
    {
        "java"
    }

    pub fn name(&self) -> (r: &'static str)
        ensures
            r@ == "Java"@,
    {
        "Java"
    }

    pub fn icon(&self) -> (r: &'static str)
        ensures
            r@ == "code"@,
    {
        "code"
    }

    pub fn features(&self) -> (r: Vec<ToolFeature>)
        ensures
            feature_views(r@) == Self::feature_list(),
    {
        let mut r: Vec<ToolFeature> = Vec::new();
        r.push(tool_feature("instances", "版本检测", "check-circle"));
        r.push(tool_feature("downloads", "可用版本", "download"));
        r.push(tool_feature("mirror", "Maven 镜像", "globe"));
        assert(feature_views(r@) =~= Self::feature_list());
        r
    }

    pub fn command_names(&self) -> (r: Vec<String>)
        ensures
            r.deep_view() == Self::command_list(),
    {
        let mut r: Vec<String> = Vec::new();
        r.push(owned("detect_java"));
        r.push(owned("detect_default_java"));
        r.push(owned("get_available_java_versions"));
        r.push(owned("get_java_download_url"));
        r.push(owned("list_java_mirrors"));
        r.push(owned("switch_java_mirror"));
        assert(r.deep_view() =~= Self::command_list());
        r
    }

    /// The menu entry of the tool.
    pub fn tool_info(&self) -> (r: ToolInfo)
        ensures
            r.id@ == "java"@,
            r.name@ == "Java"@,
            r.icon@ == "code"@,
            feature_views(r.features@) == Self::feature_list(),
    {
        tool_info(self.id(), self.name(), self.icon(), self.features())
    }
}

} // verus!
