use dev_tools::java::mirror_manager::{
    build_mirrors_block, build_settings_xml, parse_mirror_url_from_xml, replace_mirrors_block,
};

#[test]
fn written_settings_read_back_their_mirror() {
    let url = "https://maven.aliyun.com/repository/public/";
    let xml = build_settings_xml("aliyun", url);
    assert_eq!(parse_mirror_url_from_xml(&xml), Some(url.to_string()));
    let padded = build_settings_xml("tencent", " https://mirrors.cloud.tencent.com/nexus/repository/maven-public/ ");
    assert_eq!(
        parse_mirror_url_from_xml(&padded),
        Some("https://mirrors.cloud.tencent.com/nexus/repository/maven-public/".to_string())
    );
}

#[test]
fn replaced_settings_read_back_the_new_mirror() {
    let old = "<settings>\n  <mirrors><mirror><url>https://old.example.com</url></mirror></mirrors>\n</settings>";
    let block = build_mirrors_block("huawei", "https://repo.huaweicloud.com/repository/maven/");
    let replaced = replace_mirrors_block(old, &block);
    assert_eq!(
        parse_mirror_url_from_xml(&replaced),
        Some("https://repo.huaweicloud.com/repository/maven/".to_string())
    );
    let bare = "<settings>\n  <localRepository>D:\\m2</localRepository>\n</settings>";
    let added = replace_mirrors_block(bare, &block);
    assert_eq!(
        parse_mirror_url_from_xml(&added),
        Some("https://repo.huaweicloud.com/repository/maven/".to_string())
    );
    let no_root = replace_mirrors_block("<!-- empty -->", &block);
    assert_eq!(
        parse_mirror_url_from_xml(&no_root),
        Some("https://repo.huaweicloud.com/repository/maven/".to_string())
    );
}

use dev_tools::mysql::cleaner::{build_instance_targets, directories_for_instance};
use dev_tools::types::{CleanOptions, MySQLInstance};

fn mysql(version: &str, path: &str, service: &str) -> MySQLInstance {
    MySQLInstance {
        version: version.to_string(),
        architecture: "x86_64".to_string(),
        status: "停止".to_string(),
        path: path.to_string(),
        service_name: Some(service.to_string()),
        port: Some(3306),
        is_residual: true,
    }
}

#[test]
fn cleanups_of_two_versions_share_no_directory() {
    let options = CleanOptions { clean_install_dir: true, clean_program_data: true, ..CleanOptions::default() };
    let a = mysql("8.0.36", "C:\\Program Files\\MySQL\\MySQL Server 8.0\\bin", "MySQL80");
    let b = mysql("5.7.44", "C:\\Program Files\\MySQL\\MySQL Server 5.7\\bin", "MySQL57");
    let da = directories_for_instance(&build_instance_targets(&a, true), &options, true, true);
    let db = directories_for_instance(&build_instance_targets(&b, true), &options, true, true);
    assert_eq!(da.len(), 2);
    assert_eq!(db.len(), 2);
    assert_eq!(da[0].path, "C:\\Program Files\\MySQL\\MySQL Server 8.0");
    assert_eq!(da[1].path, "C:\\ProgramData\\MySQL\\MySQL Server 8.0");
    for x in &da {
        assert!(db.iter().all(|y| y.path != x.path));
    }
}

use dev_tools::mysql::cleaner::ps_quote;
use dev_tools::mysql::password_reset::escape_mysql_password;
use dev_tools::postgresql::password_reset::escape_postgresql_password;

fn read_mysql_literal_body(s: &str) -> Option<String> {
    let cs: Vec<char> = s.chars().collect();
    let mut out = String::new();
    let mut i = 0;
    while i < cs.len() {
        match cs[i] {
            '\'' => {
                if i + 1 < cs.len() && cs[i + 1] == '\'' {
                    out.push('\'');
                    i += 2;
                } else {
                    return None;
                }
            }
            '\\' => {
                if i + 1 >= cs.len() {
                    return None;
                }
                match cs[i + 1] {
                    '0' => out.push('\0'),
                    'n' => out.push('\n'),
                    'r' => out.push('\r'),
                    't' => out.push('\t'),
                    'b' => out.push('\x08'),
                    'Z' => out.push('\x1a'),
                    '%' | '_' => {
                        out.push('\\');
                        out.push(cs[i + 1]);
                    }
                    c => out.push(c),
                }
                i += 2;
            }
            c => {
                out.push(c);
                i += 1;
            }
        }
    }
    Some(out)
}

fn read_quoted_body(s: &str) -> Option<String> {
    let cs: Vec<char> = s.chars().collect();
    let mut out = String::new();
    let mut i = 0;
    while i < cs.len() {
        if cs[i] == '\'' {
            if i + 1 < cs.len() && cs[i + 1] == '\'' {
                out.push('\'');
                i += 2;
            } else {
                return None;
            }
        } else {
            out.push(cs[i]);
            i += 1;
        }
    }
    Some(out)
}

#[test]
fn escaped_mysql_passwords_read_back() {
    for p in ["it's", "a\\b\"c", "x\0y\nz\r\t\x08\x1a", "50%_off", "''''", "密码'安全"] {
        assert_eq!(read_mysql_literal_body(&escape_mysql_password(p)), Some(p.to_string()));
    }
}

#[test]
fn quote_doubled_texts_read_back() {
    for p in ["O'Brien", "''", "plain", "C:\\it's\\here"] {
        assert_eq!(read_quoted_body(&escape_postgresql_password(p)), Some(p.to_string()));
        assert_eq!(read_quoted_body(&ps_quote(p)), Some(p.to_string()));
    }
}
