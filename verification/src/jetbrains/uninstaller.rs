//! Choosing the command that uninstalls a JetBrains IDE.
use vstd::prelude::*;
use crate::text::{
    contains, contains_str, find_char, find_ch, from_chars, lemma_find_char, push_all, push_str, slice,
    to_chars, trim_end_char, trim_end_char_chars,
};
use crate::pattern::{to_lowercase, unicode_lower};
use crate::types::JetBrainsInstallation;

verus! {

/// The command that uninstalls an IDE without questions: its quiet uninstall
/// string; else, for an MSI (`msiexec` in any case) with a `{...}` product
/// code, `msiexec.exe /x {...} /quiet /norestart` (the string as it is without
/// one); else the uninstall string, trailing spaces dropped, with `/S`; none
/// without any uninstall string.
pub open spec fn uninstall_command_of(quiet: Seq<char>, raw: Seq<char>) -> Option<Seq<char>> {
    if quiet.len() > 0 {
        Some(quiet)
    } else if raw.len() == 0 {
        None
    } else if contains(unicode_lower(raw), "msiexec"@) {
        match find_char(raw, '{') {
            Some(b) => match find_char(raw.skip(b as int), '}') {
                Some(e) => Some("msiexec.exe /x "@ + raw.subrange(b as int, (b + e + 1) as int) + " /quiet /norestart"@),
                None => Some(raw),
            },
            None => Some(raw),
        }
    } else {
        Some(trim_end_char(raw, ' ') + " /S"@)
    }
}

/// The uninstall command of an installation (see [`uninstall_command_of`]).
pub fn uninstall_command(installation: &JetBrainsInstallation) -> (r: Option<String>)
    ensures
        r.deep_view() == uninstall_command_of(installation.quiet_uninstall_string@, installation.uninstall_string@),
{
    if !installation.quiet_uninstall_string.as_str().is_empty() {
        return Some(installation.quiet_uninstall_string.clone());
    }
    if installation.uninstall_string.as_str().is_empty() {
        return None;
    }
    let raw = to_chars(installation.uninstall_string.as_str());
    let lower = to_lowercase(installation.uninstall_string.as_str());
    if contains_str(&to_chars(lower.as_str()), "msiexec") {
        match find_ch(&raw, '{') {
            Some(b) => {
                proof {
                    lemma_find_char(raw@, '{');
                }
                let rest = slice(&raw, b, raw.len());
                match find_ch(&rest, '}') {
                    Some(e) => {
                        proof {
                            lemma_find_char(rest@, '}');
                        }
                        let id = slice(&raw, b, b + e + 1);
                        let mut s: Vec<char> = Vec::new();
                        push_str(&mut s, "msiexec.exe /x ");
                        push_all(&mut s, &id);
                        push_str(&mut s, " /quiet /norestart");
                        Some(from_chars(&s))
                    },
                    None => Some(installation.uninstall_string.clone()),
                }
            },
            None => Some(installation.uninstall_string.clone()),
        }
    } else {
        let t = trim_end_char_chars(&raw, ' ');
        let mut s: Vec<char> = Vec::new();
        push_all(&mut s, &t);
        push_str(&mut s, " /S");
        Some(from_chars(&s))
    }
}

} // verus!
