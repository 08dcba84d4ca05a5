//! What a PostgreSQL residue clean-up targets for one instance.
use vstd::prelude::*;
use crate::text::{split_char, split_ch, vviews, from_chars, to_chars, eq_str};
use crate::winpath::{file_name, win_parent, file_name_of, parent_of};
use crate::mysql::cleaner::{install_dir_of, opt_view};
use crate::error::owned;
use crate::types::{PostgresqlInstance, CleanOptions, ScannedPath};

verus! {

/// What the clean-up of one instance leaves alone, as shown to the user.
pub const EXCLUDED_NOTE: &'static str = "仅清理所选实例相关残留；不清理其他版本实例及自定义 data_directory";

/// The places a clean-up of one instance looks at.
#[derive(Debug, Clone)]
pub struct InstanceTargets {
    pub major_version: String,
    pub install_dir: Option<String>,
    pub data_dir: Option<String>,
    pub service_name: Option<String>,
}

/// The major version: the text before the first `.`.
pub open spec fn major_of(version: Seq<char>) -> Seq<char> {
    split_char(version, '.')[0]
}

/// The major version of a version string (see [`major_of`]).
pub fn derive_major_version(version: &str) -> (r: String)
    ensures
        r@ == major_of(version@),
{
    let v = to_chars(version);
    let ps = split_ch(&v, '.');
    proof {
        crate::text::lemma_split_char_nonempty(version@, '.');
    }
    assert(vviews(ps@)[0] == ps@[0]@);
    from_chars(&ps[0])
}

/// The clean-up targets of an instance; `path_is_dir` tells whether the
/// instance's path is an existing directory.
pub fn build_instance_targets(instance: &PostgresqlInstance, path_is_dir: bool) -> (r: InstanceTargets)
    ensures
        r.major_version@ == major_of(instance.version@),
        opt_view(r.install_dir) == install_dir_of(instance.path@, path_is_dir),
        r.data_dir == instance.data_dir,
        r.service_name == instance.service_name,
{
    let major_version = derive_major_version(instance.version.as_str());
    let p = to_chars(instance.path.as_str());
    let install_dir = if p.len() == 0 {
        None
    } else {
        let is_bin = match file_name_of(&p) {
            Some(n) => eq_str(&n, "bin"),
            None => false,
        };
        if is_bin {
            match parent_of(&p) {
                Some(q) => Some(from_chars(&q)),
                None => None,
            }
        } else if path_is_dir {
            Some(instance.path.clone())
        } else {
            match parent_of(&p) {
                Some(q) => Some(from_chars(&q)),
                None => None,
            }
        }
    };
    let data_dir = match &instance.data_dir {
        Some(d) => Some(d.clone()),
        None => None,
    };
    let service_name = match &instance.service_name {
        Some(s) => Some(s.clone()),
        None => None,
    };
    InstanceTargets { major_version, install_dir, data_dir, service_name }
}

/// The directories a clean-up with `options` would remove, with whether each
/// exists: the installation directory, then the data directory.
pub fn directories_for_instance(
    targets: &InstanceTargets,
    options: &CleanOptions,
    install_dir_exists: bool,
    data_dir_exists: bool,
) -> (r: Vec<ScannedPath>)
    ensures
        r@.len() == (if options.clean_install_dir && targets.install_dir is Some { 1int } else { 0 })
            + (if options.clean_program_data && targets.data_dir is Some { 1int } else { 0 }),
        options.clean_install_dir && targets.install_dir is Some ==> (r@[0].path@
            == targets.install_dir->0@ && r@[0].category@ == "install_dir"@ && r@[0].exists
            == install_dir_exists),
        options.clean_program_data && targets.data_dir is Some ==> ({
            let k = r@.len() - 1;
            r@[k].path@ == targets.data_dir->0@ && r@[k].category@ == "program_data"@
                && r@[k].exists == data_dir_exists
        }),
{
    let mut dirs: Vec<ScannedPath> = Vec::new();
    if options.clean_install_dir {
        match &targets.install_dir {
            Some(path) => {
                dirs.push(
                    ScannedPath { path: path.clone(), category: owned("install_dir"), exists: install_dir_exists },
                );
            },
            None => {},
        }
    }
    if options.clean_program_data {
        match &targets.data_dir {
            Some(path) => {
                dirs.push(
                    ScannedPath { path: path.clone(), category: owned("program_data"), exists: data_dir_exists },
                );
            },
            None => {},
        }
    }
    dirs
}

} // verus!
