//! The cache of version lists fetched from the network: freshness, file names,
//! and which copy of the data is used.
use vstd::prelude::*;
use crate::text::{trim, trim_chars, parse_unsigned, parse_u64, to_chars, from_chars, push_str, decimal, decimal_chars};
use crate::json::{json_members, object_members};

verus! {

/// How long a cached copy stays valid, in seconds: 24 hours.
pub const CACHE_TTL_SECS: u64 = 86400;

/// The cached copy written at `written` is still valid at `now` (a clock that
/// went backwards counts as no time elapsed).
pub fn cache_is_fresh(now: u64, written: u64) -> (r: bool)
    ensures
        r == ((if now >= written { now - written } else { 0 }) <= CACHE_TTL_SECS),
{
    now.saturating_sub(written) <= CACHE_TTL_SECS
}

/// The write time a cache's metadata file records: its trimmed text as a `u64`.
pub fn parse_cache_timestamp(meta: &str) -> (r: Option<u64>)
    ensures
        match r {
            Some(t) => parse_unsigned(trim(meta@), 0xffff_ffff_ffff_ffff) == Some(t as nat),
            None => parse_unsigned(trim(meta@), 0xffff_ffff_ffff_ffff) is None,
        },
{
    let v = to_chars(meta);
    let t = trim_chars(&v);
    parse_u64(&t)
}

/// The data file of a cache key.
pub fn cache_file_name(key: &str) -> (r: String)
    ensures
        r@ == key@ + ".json"@,
{
    let mut s: Vec<char> = Vec::new();
    push_str(&mut s, key);
    push_str(&mut s, ".json");
    from_chars(&s)
}

/// The metadata file of a cache key.
pub fn meta_file_name(key: &str) -> (r: String)
    ensures
        r@ == key@ + ".meta"@,
{
    let mut s: Vec<char> = Vec::new();
    push_str(&mut s, key);
    push_str(&mut s, ".meta");
    from_chars(&s)
}

/// The text recorded in the metadata file at write time.
pub fn cache_timestamp_text(now: u64) -> (r: String)
    ensures
        r@ == decimal(now as nat),
{
    let d = decimal_chars(now);
    from_chars(&d)
}

/// Where the version data comes from.
#[derive(Debug, Clone, Copy, PartialEq, Eq)]
pub enum DataSource {
    /// The fresh cached copy.
    Cache,
    /// The network response, which is then cached.
    Remote,
    /// The list shipped with the application.
    Embedded,
}

/// Chooses the version data: a fresh cached copy first; else a network
/// response that is non-empty JSON; else the shipped list.
pub fn choose_source(fresh_cache: bool, remote_nonempty: bool, remote_is_json: bool) -> (r: DataSource)
    ensures
        fresh_cache ==> r == DataSource::Cache,
        !fresh_cache && remote_nonempty && remote_is_json ==> r == DataSource::Remote,
        !fresh_cache && !(remote_nonempty && remote_is_json) ==> r == DataSource::Embedded,
{
    if fresh_cache {
        DataSource::Cache
    } else if remote_nonempty && remote_is_json {
        DataSource::Remote
    } else {
        DataSource::Embedded
    }
}

/// The cached copy, when both files could be read, the time stamp parses and
/// the copy is still fresh at `now`.
pub fn cached_copy(meta: Option<String>, data: Option<String>, now: u64) -> (r: Option<String>)
    ensures
        match (meta, data) {
            (Some(m), Some(d)) => match parse_unsigned(trim(m@), 0xffff_ffff_ffff_ffff) {
                Some(t) => if (if now >= t { now - t } else { 0 }) <= CACHE_TTL_SECS {
                    r == Some(d)
                } else {
                    r is None
                },
                None => r is None,
            },
            _ => r is None,
        },
{
    match (meta, data) {
        (Some(m), Some(d)) => match parse_cache_timestamp(m.as_str()) {
            Some(t) => if cache_is_fresh(now, t) {
                Some(d)
            } else {
                None
            },
            None => None,
        },
        _ => None,
    }
}

/// The version data used, and where it came from: the fresh cached copy; else
/// the network response when it is non-empty JSON; else the shipped list.
pub fn select_version_data(cached: Option<String>, remote: Option<String>, embedded: &str) -> (r: (String, DataSource))
    ensures
        match cached {
            Some(c) => r.0 == c && r.1 == DataSource::Cache,
            None => match remote {
                Some(b) => if b@.len() > 0 && json_members(b@) is Ok {
                    r.0 == b && r.1 == DataSource::Remote
                } else {
                    r.0@ == embedded@ && r.1 == DataSource::Embedded
                },
                None => r.0@ == embedded@ && r.1 == DataSource::Embedded,
            },
        },
{
    match cached {
        Some(c) => (c, DataSource::Cache),
        None => match remote {
            Some(b) => {
                let ok = !b.as_str().is_empty() && object_members(b.as_str()).is_ok();
                match choose_source(false, ok, ok) {
                    DataSource::Remote => (b, DataSource::Remote),
                    _ => (crate::error::owned(embedded), DataSource::Embedded),
                }
            },
            None => (crate::error::owned(embedded), DataSource::Embedded),
        },
    }
}

} // verus!
