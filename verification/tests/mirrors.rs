use dev_tools::java::mirror_manager as maven;
use dev_tools::node::mirror_manager as npm;
use dev_tools::python::mirror_manager as pip;

#[test]
fn mirror_manager_validate_mirror_url_rejects_empty() {
    assert!(maven::validate_mirror_url("").is_err());
}

#[test]
fn validate_mirror_url_rejects_empty() {
    assert!(npm::validate_mirror_url("").is_err());
}

#[test]
fn python_mirror_manager_validate_mirror_url_rejects_empty() {
    assert!(pip::validate_mirror_url("").is_err());
}

#[test]
fn mirror_manager_validate_mirror_url_rejects_invalid_scheme() {
    assert!(maven::validate_mirror_url("ftp://mirror.example.com").is_err());
}

#[test]
fn validate_mirror_url_rejects_invalid_scheme() {
    assert!(pip::validate_mirror_url("ftp://mirror.example.com").is_err());
}

#[test]
fn mirror_manager_validate_mirror_url_accepts_valid() {
    assert!(maven::validate_mirror_url("https://repo.maven.apache.org/maven2/").is_ok());
}

#[test]
fn validate_mirror_url_accepts_valid() {
    assert!(npm::validate_mirror_url("https://registry.npmmirror.com/").is_ok());
    assert!(npm::validate_mirror_url("https://registry.npmjs.org").is_ok());
}

#[test]
fn python_mirror_manager_validate_mirror_url_accepts_valid() {
    assert!(pip::validate_mirror_url("https://pypi.org/simple/").is_ok());
    assert!(pip::validate_mirror_url("http://mirrors.aliyun.com/pypi/simple/").is_ok());
}

#[test]
fn mirror_manager_get_default_mirrors_has_four_entries() {
    let mirrors = maven::get_default_mirrors();
    assert_eq!(mirrors.len(), 4);
    assert!(mirrors.iter().any(|m| m.name == "官方源"));
    assert!(mirrors.iter().any(|m| m.name == "阿里云"));
}

#[test]
fn get_default_mirrors_has_four_entries() {
    let mirrors = npm::get_default_mirrors();
    assert_eq!(mirrors.len(), 4);
    assert!(mirrors.iter().any(|m| m.name == "官方源"));
    assert!(mirrors.iter().any(|m| m.name == "阿里云"));
    assert!(mirrors.iter().any(|m| m.name == "腾讯云"));
    assert!(mirrors.iter().any(|m| m.name == "华为云"));
}

#[test]
fn mirror_manager_official_mirror_is_active_by_default() {
    let mirrors = maven::get_default_mirrors();
    let official = mirrors.iter().find(|m| m.name == "官方源").unwrap();
    assert!(official.active);
}

#[test]
fn official_mirror_is_active_by_default() {
    let mirrors = npm::get_default_mirrors();
    let official = mirrors.iter().find(|m| m.name == "官方源").unwrap();
    assert!(official.active);
}

#[test]
fn validate_mirror_url_rejects_special_chars() {
    assert!(pip::validate_mirror_url("https://example.com;rm").is_err());
    assert!(pip::validate_mirror_url("https://example.com|ls").is_err());
    assert!(pip::validate_mirror_url("https://example.com&whoami").is_err());
    assert!(pip::validate_mirror_url("https://example.com`id`").is_err());
}

#[test]
fn get_default_mirrors_has_five_entries() {
    let mirrors = pip::get_default_mirrors();
    assert_eq!(mirrors.len(), 5);
    assert!(mirrors.iter().any(|m| m.name == "官方源"));
    assert!(mirrors.iter().any(|m| m.name == "清华大学"));
    assert!(mirrors.iter().any(|m| m.name == "阿里云"));
}

#[test]
fn default_mirror_official_is_active() {
    let mirrors = pip::get_default_mirrors();
    let official = mirrors.iter().find(|m| m.name == "官方源").unwrap();
    assert!(official.active);
}

#[test]
fn default_mirrors_urls_are_valid() {
    for mirror in pip::get_default_mirrors() {
        assert!(mirror.url.starts_with("http"), "{} url invalid", mirror.name);
    }
}

#[test]
fn every_default_mirror_passes_its_own_check() {
    for m in maven::get_default_mirrors() {
        assert!(maven::validate_mirror_url(&m.url).is_ok());
    }
    for m in npm::get_default_mirrors() {
        assert!(npm::validate_mirror_url(&m.url).is_ok());
    }
    for m in pip::get_default_mirrors() {
        assert!(pip::validate_mirror_url(&m.url).is_ok());
    }
}

#[test]
fn mirror_refusal_messages() {
    assert_eq!(maven::validate_mirror_url(""), Err("验证失败: 镜像源URL不能为空".to_string()));
}
