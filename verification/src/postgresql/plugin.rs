//! The menu entry of the PostgreSQL tool and the commands it serves.
use vstd::prelude::*;
use crate::plugin::{ToolFeature, ToolInfo, feature_views, tool_feature, tool_info};
use crate::error::owned;

verus! {

/// The PostgreSQL tool.
pub struct PostgresqlPlugin;

impl PostgresqlPlugin {
    /// The features of the tool's menu, in order.
    pub open spec fn feature_list() -> Seq<(Seq<char>, Seq<char>, Seq<char>)> {
        seq![
            ("instances"@, "版本检测"@, "check-circle"@),
            ("downloads"@, "可用版本"@, "download"@),
            ("cleanup"@, "卸载清理"@, "trash"@),
            ("password"@, "密码管理"@, "key"@),
        ]
    }

    /// The commands the tool serves, in order.
    pub open spec fn command_list() -> Seq<Seq<char>> {
        seq![
            "detect_postgresql"@,
            "get_available_postgresql_versions"@,
            "download_postgresql"@,
            "uninstall_postgresql"@,
            "scan_postgresql_residuals"@,
            "clean_postgresql_residuals"@,
            "reset_postgresql_password"@,
            "change_postgresql_password"@,
            "start_postgresql_service"@,
            "stop_postgresql_service"@,
        ]
    }

    pub fn id(&self) -> (r: &'static str)
        ensures
            r@ == "postgresql"@,
    {
        "postgresql"
    }

    pub fn name(&self) -> (r: &'static str)
        ensures
            r@ == "PostgreSQL"@,
    {
        "PostgreSQL"
    }

    pub fn icon(&self) -> (r: &'static str)
        ensures
            r@ == "database"@,
    {
        "database"
    }

    pub fn features(&self) -> (r: Vec<ToolFeature>)
        ensures
            feature_views(r@) == Self::feature_list(),
    {
        let mut r: Vec<ToolFeature> = Vec::new();
        r.push(tool_feature("instances", "版本检测", "check-circle"));
        r.push(tool_feature("downloads", "可用版本", "download"));
        r.push(tool_feature("cleanup", "卸载清理", "trash"));
        r.push(tool_feature("password", "密码管理", "key"));
        assert(feature_views(r@) =~= Self::feature_list());
        r
    }

    pub fn command_names(&self) -> (r: Vec<String>)
        ensures
            r.deep_view() == Self::command_list(),
    {
        let mut r: Vec<String> = Vec::new();
        r.push(owned("detect_postgresql"));
        r.push(owned("get_available_postgresql_versions"));
        r.push(owned("download_postgresql"));
        r.push(owned("uninstall_postgresql"));
        r.push(owned("scan_postgresql_residuals"));
        r.push(owned("clean_postgresql_residuals"));
        r.push(owned("reset_postgresql_password"));
        r.push(owned("change_postgresql_password"));
        r.push(owned("start_postgresql_service"));
        r.push(owned("stop_postgresql_service"));
        assert(r.deep_view() =~= Self::command_list());
        r
    }

    /// The menu entry of the tool.
    pub fn tool_info(&self) -> (r: ToolInfo)
        ensures
            r.id@ == "postgresql"@,
            r.name@ == "PostgreSQL"@,
            r.icon@ == "database"@,
            feature_views(r.features@) == Self::feature_list(),
    {
        tool_info(self.id(), self.name(), self.icon(), self.features())
    }
}

} // verus!
