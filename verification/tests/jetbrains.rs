use dev_tools::jetbrains::cleaner::{config_folder_prefix, derive_config_dir_name, extract_version_from_name};
use dev_tools::jetbrains::detector::{collect_installations, infer_product_code, sort_by_product_name};
use dev_tools::jetbrains::fetcher::{
    collect_packages, download_request_task_id, extract_filename, find_release_download,
    get_package_download, installer_size_error, jetbrains_products, overview_entry,
    overview_result, product_name_for, product_versions, releases_api_url, sha256_sidecar_verdict,
};
use dev_tools::jetbrains::plugin::JetBrainsPlugin;
use dev_tools::mysql::fetcher::ChecksumVerdict;
use dev_tools::types::{
    JetBrainsDownload, JetBrainsDownloads, JetBrainsInstallation, JetBrainsRelease,
    RegistryUninstallItem,
};

fn dl(link: &str, size: u64) -> JetBrainsDownload {
    JetBrainsDownload { link: link.to_string(), size, checksum_link: format!("{}.sha256", link) }
}

fn release(version: &str, windows: Option<JetBrainsDownload>, zip: Option<JetBrainsDownload>) -> JetBrainsRelease {
    JetBrainsRelease {
        version: version.to_string(),
        date: "2024-01-01".to_string(),
        downloads: JetBrainsDownloads { windows, windows_zip: zip, windows_arm64: None },
    }
}

#[test]
fn product_codes_from_display_names() {
    assert_eq!(infer_product_code("IntelliJ IDEA Community Edition 2024.1"), "IIC");
    assert_eq!(infer_product_code("IntelliJ IDEA 2024.1"), "IIU");
    assert_eq!(infer_product_code("PyCharm Community Edition"), "PCC");
    assert_eq!(infer_product_code("JetBrains Toolbox"), "TBA");
    assert_eq!(infer_product_code("Notepad++"), "");
}

fn item(name: &str, version: &str, location: &str, publisher: &str) -> RegistryUninstallItem {
    RegistryUninstallItem {
        product_name: name.to_string(),
        version: version.to_string(),
        install_location: location.to_string(),
        uninstall_string: String::new(),
        quiet_uninstall_string: String::new(),
        publisher: publisher.to_string(),
        is_toolbox: false,
    }
}

#[test]
fn installations_keep_first_of_each_key() {
    let items = vec![
        item("PyCharm 2024.1", "241.1", r"C:\pc", "JetBrains s.r.o."),
        item("Notepad++", "8.6", r"C:\npp", "Notepad++ Team"),
        item("PyCharm 2024.1", "241.1", r"C:\pc", "JetBrains s.r.o."),
        item("Some Tool", "1.0", r"C:\t", "JetBrains"),
    ];
    let found = collect_installations(&items);
    assert_eq!(found.len(), 2);
    assert_eq!(found[0].product_code, "PCP");
    assert_eq!(found[1].product_name, "Some Tool");
    let sorted = sort_by_product_name(found);
    assert_eq!(sorted[0].product_name, "PyCharm 2024.1");
}

#[test]
fn config_folders() {
    assert_eq!(config_folder_prefix("IntelliJ IDEA Ultimate"), Some("IntelliJIdea".to_string()));
    assert_eq!(config_folder_prefix("Notepad"), None);
    assert_eq!(extract_version_from_name("GoLand 2023.3.4", ""), "2023.3.4");
    assert_eq!(extract_version_from_name("GoLand 2023.3.4", "未知"), "2023.3.4");
    assert_eq!(extract_version_from_name("GoLand", "2024.1"), "2024.1");
    let inst = JetBrainsInstallation {
        product_name: "WebStorm 2024.1".to_string(),
        product_code: "WS".to_string(),
        version: String::new(),
        install_location: String::new(),
        uninstall_string: String::new(),
        quiet_uninstall_string: String::new(),
        is_toolbox: false,
        publisher: String::new(),
    };
    assert_eq!(derive_config_dir_name(&inst), Some("WebStorm2024.1".to_string()));
}

#[test]
fn product_table_and_urls() {
    assert_eq!(jetbrains_products().len(), 12);
    assert_eq!(product_name_for("GO"), Ok("GoLand".to_string()));
    assert_eq!(product_name_for("XX"), Err("未知产品代号: XX".to_string()));
    assert_eq!(
        releases_api_url("GO", true),
        "https://data.services.jetbrains.com/products/releases?code=GO&type=release&latest=true"
    );
    assert_eq!(
        releases_api_url("GO", false),
        "https://data.services.jetbrains.com/products/releases?code=GO&type=release"
    );
}

#[test]
fn packages_and_downloads() {
    let r = release("2024.1", Some(dl("https://x/a.exe", 10)), Some(dl("", 0)));
    let ps = collect_packages(&r.downloads);
    assert_eq!(ps.len(), 1);
    assert_eq!(ps[0].package_type, "windows");
    assert_eq!(get_package_download(&r.downloads, "windows").unwrap().size, 10);
    assert_eq!(
        get_package_download(&r.downloads, "windowsARM64").unwrap_err(),
        "未提供 windowsARM64 包类型"
    );
    assert_eq!(extract_filename("https://x/y/goland-2024.1.exe"), "goland-2024.1.exe");
}

#[test]
fn release_download_lookup() {
    let rs = vec![
        release("2024.1", Some(dl("https://x/a.exe", 10)), Some(dl("", 0))),
        release("2023.3", None, None),
    ];
    assert_eq!(find_release_download(&rs, "GO", "2024.1", "windows").unwrap().link, "https://x/a.exe");
    assert_eq!(
        find_release_download(&rs, "GO", "2024.1", "windowsZip").unwrap_err(),
        "GO 的 2024.1 版本下载链接为空"
    );
    assert_eq!(
        find_release_download(&rs, "GO", "2023.3", "windows").unwrap_err(),
        "未提供 windows 包类型"
    );
    assert_eq!(
        find_release_download(&rs, "GO", "1.0", "windows").unwrap_err(),
        "未在 API 返回中找到 GO 的 1.0 版本"
    );
    assert_eq!(
        download_request_task_id("GO", "2024.1", "windows"),
        Ok("jetbrains:GO-2024.1-windows".to_string())
    );
    assert!(download_request_task_id("", "2024.1", "windows").is_err());
}

#[test]
fn overview_entries_and_order() {
    let r = release("2024.1", Some(dl("https://x/a.exe", 10)), None);
    let a = overview_entry("WS", "WebStorm", &r).unwrap();
    let b = overview_entry("CL", "CLion", &r).unwrap();
    assert!(overview_entry("CL", "CLion", &release("1", None, None)).is_none());
    let sorted = overview_result(vec![a, b]).unwrap();
    assert_eq!(sorted[0].product_name, "CLion");
    assert_eq!(
        overview_result(vec![]).unwrap_err(),
        "所有 JetBrains 产品版本查询均失败（共 12 个产品）"
    );
}

#[test]
fn product_versions_keep_releases_with_packages() {
    let rs = vec![
        release("2024.1", Some(dl("https://x/a.exe", 10)), None),
        release("2023.3", None, None),
    ];
    let vs = product_versions("GoLand", &rs).unwrap();
    assert_eq!(vs.len(), 1);
    assert_eq!(vs[0].version, "2024.1");
    assert_eq!(
        product_versions("GoLand", &vec![release("1", None, None)]).unwrap_err(),
        "GoLand 未找到任何可用版本"
    );
}

#[test]
fn size_and_checksum_checks() {
    assert_eq!(installer_size_error(10, 10), None);
    assert_eq!(installer_size_error(10, 0), None);
    assert_eq!(
        installer_size_error(5, 10),
        Some("文件大小不完整（实际 5 字节 / 预期 10 字节），可能下载中断".to_string())
    );
    let h = "a".repeat(64);
    assert_eq!(sha256_sidecar_verdict(&format!("{} *goland.exe", h.to_uppercase()), &h), ChecksumVerdict::Match);
    assert_eq!(sha256_sidecar_verdict(&format!("{} *goland.exe", h), &"b".repeat(64)), ChecksumVerdict::Mismatch);
    assert_eq!(sha256_sidecar_verdict("short", &h), ChecksumVerdict::Unreadable);
}

#[test]
fn jetbrains_plugin_identity() {
    assert_eq!(JetBrainsPlugin.id(), "jetbrains");
}
