//! Which installed products an uninstall of one PostgreSQL instance may touch.
use vstd::prelude::*;
use crate::text::{split_char, split_ch, vviews, all_digits, is_ascii_digit, to_chars, from_chars, push_str, str_eq};
use crate::pattern::{regex_escaped, regex_escape};
use crate::mysql::uninstaller::version_known;
use crate::detector_base::{VERSION_UNKNOWN, ARCH_UNKNOWN};
use crate::error::owned;

verus! {

/// The last `-`-separated piece of a service name when it is made of digits
/// (`postgresql-x64-16` gives `16`).
pub open spec fn service_tail_version(service: Seq<char>) -> Option<Seq<char>> {
    let ps = split_char(service, '-');
    if all_digits(ps.last()) {
        Some(ps.last())
    } else {
        None
    }
}

/// The version an uninstall works with, or none when it is skipped.  With the
/// service's directory known: the recorded version when usable, else the
/// service name's version when the second lookup of the directory succeeded,
/// else the recorded text.  Without it: the service name's version, unless empty.
pub open spec fn uninstall_version(known: Seq<char>, service: Seq<char>, has_bin_dir: bool, relookup_found: bool) -> Option<Seq<char>> {
    if has_bin_dir {
        if !version_known(known) && relookup_found {
            match service_tail_version(service) {
                Some(t) => Some(t),
                None => Some(known),
            }
        } else {
            Some(known)
        }
    } else {
        match service_tail_version(service) {
            Some(t) => if t.len() > 0 { Some(t) } else { None },
            None => None,
        }
    }
}

fn digits_only(s: &Vec<char>) -> (r: bool)
    ensures
        r == all_digits(s@),
{
    let mut i: usize = 0;
    while i < s.len()
        invariant
            i <= s.len(),
            forall|j: int| 0 <= j < i ==> is_ascii_digit(#[trigger] s@[j]),
        decreases s.len() - i,
    {
        if !('0' <= s[i] && s[i] <= '9') {
            return false;
        }
        i += 1;
    }
    true
}

fn tail_version(service: &str) -> (r: Option<String>)
    ensures
        r.deep_view() == service_tail_version(service@),
{
    let v = to_chars(service);
    let ps = split_ch(&v, '-');
    proof {
        crate::text::lemma_split_char_nonempty(service@, '-');
    }
    assert(vviews(ps@) == split_char(service@, '-'));
    let last = &ps[ps.len() - 1];
    assert(vviews(ps@).last() == last@);
    if digits_only(last) {
        Some(from_chars(last))
    } else {
        None
    }
}

/// Picks the version of [`uninstall_version`].
pub fn version_for_uninstall(known_version: &str, service: &str, has_bin_dir: bool, relookup_found: bool) -> (r: Option<String>)
    ensures
        r.deep_view() == uninstall_version(known_version@, service@, has_bin_dir, relookup_found),
{
    let usable = !known_version.is_empty() && !str_eq(known_version, VERSION_UNKNOWN) && !str_eq(
        known_version,
        ARCH_UNKNOWN,
    );
    if has_bin_dir {
        if !usable && relookup_found {
            match tail_version(service) {
                Some(t) => Some(t),
                None => Some(owned(known_version)),
            }
        } else {
            Some(owned(known_version))
        }
    } else {
        match tail_version(service) {
            Some(t) => if t.as_str().is_empty() {
                None
            } else {
                Some(t)
            },
            None => None,
        }
    }
}

/// The filter a product's display name must match: `PostgreSQL\s+` and the
/// escaped major version, when the version is usable and its major part is
/// made of digits.
pub open spec fn uninstall_filter(version: Seq<char>) -> Option<Seq<char>> {
    if !version_known(version) {
        None
    } else {
        let major = split_char(version, '.')[0];
        if all_digits(major) {
            Some("PostgreSQL\\s+"@ + regex_escaped(major))
        } else {
            None
        }
    }
}

/// Builds the filter of [`uninstall_filter`].
pub fn build_uninstall_filter(version: &str) -> (r: Option<String>)
    ensures
        r.deep_view() == uninstall_filter(version@),
{
    if version.is_empty() || str_eq(version, VERSION_UNKNOWN) || str_eq(version, ARCH_UNKNOWN) {
        return None;
    }
    let v = to_chars(version);
    let ps = split_ch(&v, '.');
    proof {
        crate::text::lemma_split_char_nonempty(version@, '.');
    }
    assert(vviews(ps@) == split_char(version@, '.'));
    assert(vviews(ps@)[0] == ps@[0]@);
    if !digits_only(&ps[0]) {
        return None;
    }
    let e = regex_escape(from_chars(&ps[0]).as_str());
    let mut m: Vec<char> = Vec::new();
    push_str(&mut m, "PostgreSQL\\s+");
    push_str(&mut m, e.as_str());
    Some(from_chars(&m))
}

} // verus!
