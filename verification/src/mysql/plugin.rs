//! The menu entry of the MySQL tool and the commands it serves.
use vstd::prelude::*;
use crate::plugin::{ToolFeature, ToolInfo, feature_views, tool_feature, tool_info};
use crate::error::owned;

verus! {

/// The MySQL tool.
pub struct MySqlPlugin;

impl MySqlPlugin {
    /// The features of the tool's menu, in order.
    pub open spec fn feature_list() -> Seq<(Seq<char>, Seq<char>, Seq<char>)> {
        seq![
            ("instances"@, "版本检测"@, "check-circle"@),
            ("downloads"@, "可用版本"@, "download"@),
            ("cleanup"@, "卸载清理"@, "trash"@),
            ("password"@, "密码管理"@, "key"@),
        ]
    }

    /// The commands the tool serves, in order.
    pub open spec fn command_list() -> Seq<Seq<char>> {
        seq![
            "detect_mysql"@,
            "uninstall_mysql"@,
            "scan_mysql_residuals"@,
            "clean_mysql_residuals"@,
            "reset_mysql_password"@,
            "change_mysql_password"@,
            "start_mysql_service"@,
            "stop_mysql_service"@,
            "get_available_mysql_versions"@,
            "download_mysql"@,
        ]
    }

    pub fn id(&self) -> (r: &'static str)
        ensures
            r@ == "mysql"@,
    {
        "mysql"
    }

    pub fn name(&self) -> (r: &'static str)
        ensures
            r@ == "MySQL"@,
    {
        "MySQL"
    }

    pub fn icon(&self) -> (r: &'static str)
        ensures
            r@ == "database"@,
    {
        "database"
    }

    pub fn features(&self) -> (r: Vec<ToolFeature>)
        ensures
            feature_views(r@) == Self::feature_list(),
    {
        let mut r: Vec<ToolFeature> = Vec::new();
        r.push(tool_feature("instances", "版本检测", "check-circle"));
        r.push(tool_feature("downloads", "可用版本", "download"));
        r.push(tool_feature("cleanup", "卸载清理", "trash"));
        r.push(tool_feature("password", "密码管理", "key"));
        assert(feature_views(r@) =~= Self::feature_list());
        r
    }

    pub fn command_names(&self) -> (r: Vec<String>)
        ensures
            r.deep_view() == Self::command_list(),
    {
        let mut r: Vec<String> = Vec::new();
        r.push(owned("detect_mysql"));
        r.push(owned("uninstall_mysql"));
        r.push(owned("scan_mysql_residuals"));
        r.push(owned("clean_mysql_residuals"));
        r.push(owned("reset_mysql_password"));
        r.push(owned("change_mysql_password"));
        r.push(owned("start_mysql_service"));
        r.push(owned("stop_mysql_service"));
        r.push(owned("get_available_mysql_versions"));
        r.push(owned("download_mysql"));
        assert(r.deep_view() =~= Self::command_list());
        r
    }

    /// The menu entry of the tool.
    pub fn tool_info(&self) -> (r: ToolInfo)
        ensures
            r.id@ == "mysql"@,
            r.name@ == "MySQL"@,
            r.icon@ == "database"@,
            feature_views(r.features@) == Self::feature_list(),
    {
        tool_info(self.id(), self.name(), self.icon(), self.features())
    }
}

} // verus!
