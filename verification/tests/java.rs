use dev_tools::detector_base::dedupe_by_executable;
use dev_tools::types::JavaVersion;
use dev_tools::java::detector::{normalize_version, parse_vendor, parse_version};
use dev_tools::java::mirror_manager::{
    build_mirrors_block, build_settings_xml, get_default_mirrors, mark_active_mirror, normalize_url,
    parse_mirror_url_from_xml, replace_mirrors_block,
};
use dev_tools::java::plugin::JavaPlugin;
use dev_tools::java::version_fetcher::{
    download_file_name, download_task_id, feature_release_url, get_download_url, package_extension,
    releases_url, sort_newest_first, validate_feature_version, PACKAGE_TYPE_ARCHIVE,
    PACKAGE_TYPE_INSTALLER,
};
use dev_tools::types::AvailableJavaVersion;

#[test]
fn parse_version_openjdk_17() {
    let output = r#"openjdk version "17.0.9" 2023-10-17
OpenJDK Runtime Environment Temurin-17.0.9+9 (build 17.0.9+9)
OpenJDK 64-Bit Server VM Temurin-17.0.9+9 (build 17.0.9+9, mixed mode, sharing)"#;
    assert_eq!(parse_version(output), Some("17.0.9".to_string()));
}

#[test]
fn parse_version_oracle_8() {
    let output = r#"java version "1.8.0_381"
Java(TM) SE Runtime Environment (build 1.8.0_381-b10)
Java HotSpot(TM) 64-Bit Server VM (build 25.381-b10, mixed mode)"#;
    assert_eq!(parse_version(output), Some("8.0.381".to_string()));
}

#[test]
fn parse_version_adoptium_21() {
    let output = r#"openjdk version "21.0.5" 2023-10-17 LTS
OpenJDK Runtime Environment Temurin-21.0.5+11 (build 21.0.5+11-LTS)"#;
    assert_eq!(parse_version(output), Some("21.0.5".to_string()));
}

#[test]
fn parse_vendor_temurin() {
    let output = "openjdk version \"17.0.9\" 2023-10-17\nOpenJDK Runtime Environment Temurin-17.0.9+9";
    assert_eq!(parse_vendor(output), "Adoptium");
}

#[test]
fn parse_vendor_oracle() {
    let output = "java version \"1.8.0_381\"\nJava(TM) SE Runtime Environment";
    assert_eq!(parse_vendor(output), "Oracle");
}

#[test]
fn normalize_java8_version() {
    assert_eq!(normalize_version("1.8.0_381"), "8.0.381");
    assert_eq!(normalize_version("17.0.9"), "17.0.9");
}

#[test]
fn parse_version_without_quoted_version_is_none() {
    assert_eq!(parse_version("no version here"), None);
}

#[test]
fn normalize_url_strips_trailing_slash() {
    assert_eq!(normalize_url("https://example.com/"), "https://example.com");
    assert_eq!(normalize_url("https://example.com"), "https://example.com");
}

#[test]
fn parse_mirror_url_from_xml_extracts_url() {
    let xml = r#"<?xml version="1.0"?>
<settings>
  <mirrors>
    <mirror>
      <id>aliyun</id>
      <mirrorOf>*</mirrorOf>
      <url>https://maven.aliyun.com/repository/public/</url>
    </mirror>
  </mirrors>
</settings>"#;
    let url = parse_mirror_url_from_xml(xml).unwrap();
    assert_eq!(url, "https://maven.aliyun.com/repository/public/");
}

#[test]
fn parse_mirror_url_from_xml_returns_none_without_mirrors() {
    let xml = r#"<?xml version="1.0"?>
<settings>
  <localRepository>/path</localRepository>
</settings>"#;
    assert!(parse_mirror_url_from_xml(xml).is_none());
}

#[test]
fn replace_mirrors_block_replaces_existing() {
    let content = r#"<settings>
  <localRepository>/path</localRepository>
  <mirrors>
    <mirror>
      <id>old</id>
      <url>https://old.example.com</url>
    </mirror>
  </mirrors>
</settings>"#;
    let new_block = r#"<mirrors>
    <mirror>
      <id>new</id>
      <url>https://new.example.com</url>
    </mirror>
  </mirrors>"#;
    let result = replace_mirrors_block(content, new_block);
    assert!(result.contains("new.example.com"));
    assert!(!result.contains("old.example.com"));
}

#[test]
fn replace_mirrors_block_inserts_when_missing() {
    let content = r#"<settings>
  <localRepository>/path</localRepository>
</settings>"#;
    let new_block = r#"<mirrors>
    <mirror>
      <id>new</id>
      <url>https://new.example.com</url>
    </mirror>
  </mirrors>"#;
    let result = replace_mirrors_block(content, new_block);
    assert!(result.contains("new.example.com"));
    assert!(result.contains("</settings>"));
}

#[test]
fn build_settings_xml_contains_mirror_url() {
    let xml = build_settings_xml("aliyun", "https://maven.aliyun.com/repository/public/");
    assert!(xml.contains("aliyun"));
    assert!(xml.contains("https://maven.aliyun.com/repository/public/"));
    assert!(xml.contains("<mirrors>"));
}

#[test]
fn built_settings_round_trip_through_the_reader() {
    let xml = build_settings_xml("aliyun", "https://maven.aliyun.com/repository/public/");
    assert_eq!(
        parse_mirror_url_from_xml(&xml),
        Some("https://maven.aliyun.com/repository/public/".to_string())
    );
    let block = build_mirrors_block("x", "https://x.example.com/");
    let replaced = replace_mirrors_block(&xml, &block);
    assert_eq!(parse_mirror_url_from_xml(&replaced), Some("https://x.example.com/".to_string()));
}

#[test]
fn mark_active_mirror_compares_normalized_urls() {
    let mut ms = get_default_mirrors();
    mark_active_mirror(&mut ms, Some("https://maven.aliyun.com/repository/public"));
    assert!(!ms[0].active);
    assert!(ms[1].active);
    let before: Vec<bool> = ms.iter().map(|m| m.active).collect();
    mark_active_mirror(&mut ms, None);
    let after: Vec<bool> = ms.iter().map(|m| m.active).collect();
    assert_eq!(before, after);
}

#[test]
fn validate_feature_version_accepts_numeric() {
    assert_eq!(validate_feature_version("17").unwrap(), 17);
    assert_eq!(validate_feature_version("21").unwrap(), 21);
}

#[test]
fn validate_feature_version_rejects_empty() {
    assert!(validate_feature_version("").is_err());
}

#[test]
fn validate_feature_version_rejects_non_numeric() {
    assert!(validate_feature_version("17.0").is_err());
    assert!(validate_feature_version("abc").is_err());
}

#[test]
fn download_url_installer_uses_installer_endpoint() {
    let url = get_download_url(17, PACKAGE_TYPE_INSTALLER);
    assert!(url.contains("/latest/17/"));
    assert!(url.contains("adoptium.net"));
    assert!(url.contains("/v3/installer/"));
}

#[test]
fn download_url_archive_uses_binary_endpoint() {
    let url = get_download_url(21, PACKAGE_TYPE_ARCHIVE);
    assert!(url.contains("/latest/21/"));
    assert!(url.contains("/v3/binary/"));
}

#[test]
fn package_extension_maps_correctly() {
    assert_eq!(package_extension(PACKAGE_TYPE_INSTALLER), "msi");
    assert_eq!(package_extension(PACKAGE_TYPE_ARCHIVE), "zip");
    assert_eq!(package_extension("unknown"), "msi");
}

#[test]
fn java_download_names() {
    assert_eq!(download_file_name(17, PACKAGE_TYPE_ARCHIVE), "openjdk-17-windows-x64-bin.zip");
    assert_eq!(download_task_id(21, PACKAGE_TYPE_INSTALLER), "java:21:installer");
    assert_eq!(releases_url(), "https://api.adoptium.net/v3/info/available_releases");
    assert!(feature_release_url(17).starts_with("https://api.adoptium.net/v3/assets/feature_releases/17/ga?"));
}

fn release(v: u32) -> AvailableJavaVersion {
    AvailableJavaVersion {
        feature_version: v,
        is_lts: v % 4 == 1,
        most_recent_version: format!("{}.0.1", v),
        timestamp: String::new(),
    }
}

#[test]
fn java_releases_sorted_newest_first() {
    let sorted = sort_newest_first(vec![release(11), release(21), release(8), release(17)]);
    let order: Vec<u32> = sorted.iter().map(|r| r.feature_version).collect();
    assert_eq!(order, vec![21, 17, 11, 8]);
}

#[test]
fn java_plugin_identity() {
    let p = JavaPlugin;
    assert_eq!(p.id(), "java");
    assert_eq!(p.name(), "Java");
    assert!(!p.command_names().is_empty());
}

#[test]
fn dedupe_keeps_first_vendor() {
    let make = |vendor: &str, manager: &str| JavaVersion {
        version: "17.0.2".to_string(),
        path: r"C:\jdk17".to_string(),
        executable: r"C:\jdk17\bin\java.exe".to_string(),
        vendor: vendor.to_string(),
        manager: manager.to_string(),
        status: "active".to_string(),
    };
    let kept = dedupe_by_executable(vec![make("Temurin", "JAVA_HOME"), make("Oracle", "system")]);
    assert_eq!(kept.len(), 1);
    assert_eq!(kept[0].vendor, "Temurin");
    assert_eq!(kept[0].manager, "JAVA_HOME");
}

#[test]
fn feature_version_overflow_reports_parse_error() {
    assert_eq!(
        validate_feature_version("99999999999"),
        Err("版本号解析失败: number too large to fit in target type".to_string())
    );
    assert_eq!(validate_feature_version("4294967295"), Ok(4294967295));
}
