//! The configuration and cache folders of one JetBrains installation.
use vstd::prelude::*;
use crate::text::{contains, contains_str, to_chars, from_chars, push_str, str_eq};
use crate::pattern::{unicode_lower, to_lowercase, regex_matches, regex_first_capture, regex_is_match, regex_capture};
use crate::error::owned;
use crate::types::{JetBrainsInstallation, ScannedPath};
use crate::winpath::{join_path, win_join};

verus! {

/// What the clean-up of one installation leaves alone, as shown to the user.
pub const EXCLUDED_NOTE: &'static str = "仅清理所选产品对应版本的配置/缓存；不清理其他 IDE 或其他版本";

/// The pattern of a version in a display name.
pub const NAME_VERSION_PATTERN: &'static str = "(\\d+\\.\\d+(?:\\.\\d+)?)";

/// The prefix of a product's configuration folders, judged on its lower-cased name.
pub open spec fn folder_prefix_of(name: Seq<char>) -> Option<Seq<char>> {
    let n = unicode_lower(name);
    if contains(n, "intellij idea"@) {
        Some("IntelliJIdea"@)
    } else if contains(n, "pycharm"@) {
        Some("PyCharm"@)
    } else if contains(n, "webstorm"@) {
        Some("WebStorm"@)
    } else if contains(n, "goland"@) {
        Some("GoLand"@)
    } else if contains(n, "clion"@) {
        Some("CLion"@)
    } else if contains(n, "datagrip"@) {
        Some("DataGrip"@)
    } else if contains(n, "phpstorm"@) {
        Some("PhpStorm"@)
    } else if contains(n, "rubymine"@) {
        Some("RubyMine"@)
    } else if contains(n, "rustrover"@) {
        Some("RustRover"@)
    } else if contains(n, "rider"@) {
        Some("Rider"@)
    } else if contains(n, "appcode"@) {
        Some("AppCode"@)
    } else {
        None
    }
}

/// The configuration-folder prefix of a product (see [`folder_prefix_of`]).
pub fn config_folder_prefix(product_name: &str) -> (r: Option<String>)
    ensures
        r.deep_view() == folder_prefix_of(product_name@),
{
    let lower = to_lowercase(product_name);
    let n = to_chars(lower.as_str());
    if contains_str(&n, "intellij idea") {
        Some(owned("IntelliJIdea"))
    } else if contains_str(&n, "pycharm") {
        Some(owned("PyCharm"))
    } else if contains_str(&n, "webstorm") {
        Some(owned("WebStorm"))
    } else if contains_str(&n, "goland") {
        Some(owned("GoLand"))
    } else if contains_str(&n, "clion") {
        Some(owned("CLion"))
    } else if contains_str(&n, "datagrip") {
        Some(owned("DataGrip"))
    } else if contains_str(&n, "phpstorm") {
        Some(owned("PhpStorm"))
    } else if contains_str(&n, "rubymine") {
        Some(owned("RubyMine"))
    } else if contains_str(&n, "rustrover") {
        Some(owned("RustRover"))
    } else if contains_str(&n, "rider") {
        Some(owned("Rider"))
    } else if contains_str(&n, "appcode") {
        Some(owned("AppCode"))
    } else {
        None
    }
}

/// The version of an installation: the registry's version unless empty or
/// unknown, else the first version in the display name, else empty.
pub open spec fn version_of_install(name: Seq<char>, fallback: Seq<char>) -> Seq<char> {
    if fallback.len() > 0 && fallback != "未知"@ {
        fallback
    } else if regex_matches(NAME_VERSION_PATTERN@, name) {
        match regex_first_capture(NAME_VERSION_PATTERN@, name, 1) {
            Some(v) => v,
            None => seq![],
        }
    } else {
        seq![]
    }
}

/// The version of an installation (see [`version_of_install`]).
pub fn extract_version_from_name(name: &str, fallback: &str) -> (r: String)
    ensures
        r@ == version_of_install(name@, fallback@),
{
    if !fallback.is_empty() && !str_eq(fallback, "未知") {
        return owned(fallback);
    }
    if regex_is_match(NAME_VERSION_PATTERN, name) {
        match regex_capture(NAME_VERSION_PATTERN, name, 1) {
            Some(v) => v,
            None => String::new(),
        }
    } else {
        String::new()
    }
}

/// The configuration-folder name of an installation: prefix and version, when
/// both are known.
pub open spec fn config_dir_name_of(i: JetBrainsInstallation) -> Option<Seq<char>> {
    match folder_prefix_of(i.product_name@) {
        Some(p) => {
            let v = version_of_install(i.product_name@, i.version@);
            if v.len() == 0 { None } else { Some(p + v) }
        },
        None => None,
    }
}

/// The configuration-folder name of an installation, such as `IntelliJIdea2026.2`.
pub fn derive_config_dir_name(installation: &JetBrainsInstallation) -> (r: Option<String>)
    ensures
        r.deep_view() == config_dir_name_of(*installation),
{
    let prefix = match config_folder_prefix(installation.product_name.as_str()) {
        Some(p) => p,
        None => {
            return None;
        },
    };
    let version = extract_version_from_name(installation.product_name.as_str(), installation.version.as_str());
    if version.as_str().is_empty() {
        None
    } else {
        let mut s: Vec<char> = Vec::new();
        push_str(&mut s, prefix.as_str());
        push_str(&mut s, version.as_str());
        Some(from_chars(&s))
    }
}

/// How a clean-up names an installation: `<product> (<version>)`.
pub fn residue_label(installation: &JetBrainsInstallation) -> (r: String)
    ensures
        r@ == installation.product_name@ + " ("@ + installation.version@ + ")"@,
{
    let mut s: Vec<char> = Vec::new();
    push_str(&mut s, installation.product_name.as_str());
    push_str(&mut s, " (");
    push_str(&mut s, installation.version.as_str());
    push_str(&mut s, ")");
    from_chars(&s)
}

/// The folder `dir_name` under `base\JetBrains`, when both are known.
pub open spec fn jetbrains_folder(base: Option<Seq<char>>, dir_name: Option<Seq<char>>) -> Option<Seq<char>> {
    match (base, dir_name) {
        (Some(b), Some(d)) => Some(win_join(win_join(b, "JetBrains"@), d)),
        _ => None,
    }
}

/// The configuration folder (under the roaming application-data folder) and
/// the cache folder (under the local one) of an installation's configuration
/// name, each with whether it exists; none where the name or the base folder
/// is unknown.
pub fn residue_folders(
    dir_name: Option<&str>,
    roaming: Option<&str>,
    local: Option<&str>,
    config_exists: bool,
    cache_exists: bool,
) -> (r: (Option<ScannedPath>, Option<ScannedPath>))
    ensures
        match jetbrains_folder(
            match roaming { Some(b) => Some(b@), None => None },
            match dir_name { Some(d) => Some(d@), None => None },
        ) {
            Some(p) => r.0 matches Some(c) && c.path@ == p && c.category@ == "config"@ && c.exists == config_exists,
            None => r.0 is None,
        },
        match jetbrains_folder(
            match local { Some(b) => Some(b@), None => None },
            match dir_name { Some(d) => Some(d@), None => None },
        ) {
            Some(p) => r.1 matches Some(c) && c.path@ == p && c.category@ == "cache"@ && c.exists == cache_exists,
            None => r.1 is None,
        },
{
    let d = match dir_name {
        Some(d) => d,
        None => {
            return (None, None);
        },
    };
    let config = match roaming {
        Some(b) => {
            let base = join_path(&to_chars(b), &to_chars("JetBrains"));
            let p = join_path(&base, &to_chars(d));
            Some(ScannedPath { path: from_chars(&p), category: owned("config"), exists: config_exists })
        },
        None => None,
    };
    let cache = match local {
        Some(b) => {
            let base = join_path(&to_chars(b), &to_chars("JetBrains"));
            let p = join_path(&base, &to_chars(d));
            Some(ScannedPath { path: from_chars(&p), category: owned("cache"), exists: cache_exists })
        },
        None => None,
    };
    (config, cache)
}

} // verus!
