//! The menu entry of the 环境变量 tool and the commands it serves.
use vstd::prelude::*;
use crate::plugin::{ToolFeature, ToolInfo, feature_views, tool_feature, tool_info};
use crate::error::owned;

verus! {

/// The 环境变量 tool.
pub struct EnvPlugin;

impl EnvPlugin {
    /// The features of the tool's menu, in order.
    pub open spec fn feature_list() -> Seq<(Seq<char>, Seq<char>, Seq<char>)> {
        seq![
            ("paths"@, "PATH 管理"@, "check-circle"@),
        ]
    }

    /// The commands the tool serves, in order.
    pub open spec fn command_list() -> Seq<Seq<char>> {
        seq![
            "get_env_paths"@,
            "get_env_variables"@,
            "detect_path_conflicts"@,
            "open_path_entry"@,
            "open_env_editor"@,
            "backup_env_variables"@,
        ]
    }

    pub fn id(&self) -> (r: &'static str)
        ensures
            r@ == "env"@,
    {
        "env"
    }

    pub fn name(&self) -> (r: &'static str)
        ensures
            r@ == "环境变量"@,
    {
        "环境变量"
    }

    pub fn icon(&self) -> (r: &'static str)
        ensures
            r@ == "terminal"@,
    {
        "terminal"
    }

    pub fn features(&self) -> (r: Vec<ToolFeature>)
        ensures
            feature_views(r@) == Self::feature_list(),
    {
        let mut r: Vec<ToolFeature> = Vec::new();
        r.push(tool_feature("paths", "PATH 管理", "check-circle"));
        assert(feature_views(r@) =~= Self::feature_list());
        r
    }

    pub fn command_names(&self) -> (r: Vec<String>)
        ensures
            r.deep_view() == Self::command_list(),
    {
        let mut r: Vec<String> = Vec::new();
        r.push(owned("get_env_paths"));
        r.push(owned("get_env_variables"));
        r.push(owned("detect_path_conflicts"));
        r.push(owned("open_path_entry"));
        r.push(owned("open_env_editor"));
        r.push(owned("backup_env_variables"));
        assert(r.deep_view() =~= Self::command_list());
        r
    }

    /// The menu entry of the tool.
    pub fn tool_info(&self) -> (r: ToolInfo)
        ensures
            r.id@ == "env"@,
            r.name@ == "环境变量"@,
            r.icon@ == "terminal"@,
            feature_views(r.features@) == Self::feature_list(),
    {
        tool_info(self.id(), self.name(), self.icon(), self.features())
    }
}

} // verus!
