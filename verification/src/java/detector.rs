//! Reading what `java -version` prints: the version and the vendor.
use vstd::prelude::*;
use crate::text::{lines, lines_of, vviews, contains, contains_str, starts_with, starts_with_str, to_chars, from_chars, slice, push_str, push_all};
use crate::pattern::{regex_matches, regex_first_capture, regex_is_match, regex_capture, unicode_lower, to_lowercase};
use crate::error::owned;
use crate::types::{JavaVersion, ProcessOutput};
use crate::winpath::{win_parent, parent_of};

verus! {

/// The pattern of the quoted version in `java -version` output.
pub const VERSION_PATTERN: &'static str = "\"(\\d+(?:\\.\\d+)*(?:[._]\\d+)?(?:\\+\\d+)?)";

/// Every `_` replaced by `.`.
pub open spec fn underscores_to_dots(s: Seq<char>) -> Seq<char> {
    Seq::new(s.len(), |i: int| if s[i] == '_' { '.' } else { s[i] })
}

/// The modern form of a Java version: `1.8.0_381` becomes `8.0.381`, other
/// `1.8.` versions become `8.0.` followed by the rest with `_` turned into `.`,
/// and every other version stays as it is.
pub open spec fn normalized(raw: Seq<char>) -> Seq<char> {
    if starts_with(raw, "1.8."@) {
        let rest = raw.skip(4);
        let cleaned = if starts_with(rest, "0_"@) { rest.skip(2) } else { underscores_to_dots(rest) };
        "8.0."@ + cleaned
    } else {
        raw
    }
}

/// The modern form of a Java version (see [`normalized`]).
pub fn normalize_version(raw: &str) -> (r: String)
    ensures
        r@ == normalized(raw@),
{
    let v = to_chars(raw);
    if starts_with_str(&v, "1.8.") {
        proof {
            reveal_strlit("1.8.");
        }
        let rest = slice(&v, 4, v.len());
        assert(rest@ =~= raw@.skip(4));
        let cleaned = if starts_with_str(&rest, "0_") {
            proof {
                reveal_strlit("0_");
            }
            let c = slice(&rest, 2, rest.len());
            assert(c@ =~= rest@.skip(2));
            c
        } else {
            let mut c: Vec<char> = Vec::new();
            let mut i: usize = 0;
            while i < rest.len()
                invariant
                    i <= rest@.len(),
                    c@ == underscores_to_dots(rest@).take(i as int),
                decreases rest.len() - i,
            {
                if rest[i] == '_' {
                    c.push('.');
                } else {
                    c.push(rest[i]);
                }
                assert(underscores_to_dots(rest@).take(i + 1) =~= underscores_to_dots(rest@).take(i as int).push(
                    c@.last(),
                ));
                i += 1;
            }
            assert(underscores_to_dots(rest@).take(rest@.len() as int) =~= underscores_to_dots(rest@));
            c
        };
        let mut s: Vec<char> = Vec::new();
        push_str(&mut s, "8.0.");
        push_all(&mut s, &cleaned);
        from_chars(&s)
    } else {
        owned(raw)
    }
}

/// The normalized version captured from one text, if the pattern's group took part.
pub open spec fn captured_version(text: Seq<char>) -> Option<Seq<char>> {
    match regex_first_capture(VERSION_PATTERN@, text, 1) {
        Some(raw) => Some(normalized(raw)),
        None => None,
    }
}

/// The answer of the first line that mentions `version` (any case) and matches
/// the pattern, if there is such a line.
pub open spec fn version_from_lines(ls: Seq<Seq<char>>) -> Option<Option<Seq<char>>>
    decreases ls.len(),
{
    if ls.len() == 0 {
        None
    } else if contains(unicode_lower(ls[0]), "version"@) && regex_matches(VERSION_PATTERN@, ls[0]) {
        Some(captured_version(ls[0]))
    } else {
        version_from_lines(ls.drop_first())
    }
}

/// The Java version in `java -version` output: from the first line that
/// mentions `version` and carries a quoted version, else from the whole text.
pub open spec fn java_version_of(output: Seq<char>) -> Option<Seq<char>> {
    match version_from_lines(lines(output)) {
        Some(r) => r,
        None => captured_version(output),
    }
}

fn captured(text: &str) -> (r: Option<String>)
    ensures
        r.deep_view() == captured_version(text@),
{
    match regex_capture(VERSION_PATTERN, text, 1) {
        Some(raw) => Some(normalize_version(raw.as_str())),
        None => None,
    }
}

/// The Java version in `java -version` output (see [`java_version_of`]).
pub fn parse_version(output: &str) -> (r: Option<String>)
    ensures
        r.deep_view() == java_version_of(output@),
{
    let v = to_chars(output);
    let ls = lines_of(&v);
    let ghost all = vviews(ls@);
    let mut i: usize = 0;
    assert(all.skip(0) =~= all);
    while i < ls.len()
        invariant
            i <= ls.len(),
            all == vviews(ls@),
            all == lines(output@),
            version_from_lines(all) == version_from_lines(all.skip(i as int)),
        decreases ls.len() - i,
    {
        assert(all.skip(i as int)[0] == ls@[i as int]@);
        assert(all.skip(i as int).drop_first() =~= all.skip(i + 1));
        let line = from_chars(&ls[i]);
        let lower = to_lowercase(line.as_str());
        let lv = to_chars(lower.as_str());
        if contains_str(&lv, "version") && regex_is_match(VERSION_PATTERN, line.as_str()) {
            return captured(line.as_str());
        }
        i += 1;
    }
    assert(all.skip(ls.len() as int) =~= Seq::<Seq<char>>::empty());
    captured(output)
}

/// The vendor named in `java -version` output, judged on its lower-cased text.
pub open spec fn vendor_of(output: Seq<char>) -> Seq<char> {
    let l = unicode_lower(output);
    if contains(l, "temurin"@) || contains(l, "adoptium"@) || contains(l, "adoptopenjdk"@) {
        "Adoptium"@
    } else if contains(l, "microsoft"@) {
        "Microsoft"@
    } else if contains(l, "zulu"@) {
        "Zulu"@
    } else if contains(l, "amazon"@) || contains(l, "corretto"@) {
        "Amazon"@
    } else if contains(l, "oracle"@) {
        "Oracle"@
    } else if contains(l, "java(tm) se"@) || contains(l, "hotspot(tm)"@) {
        "Oracle"@
    } else if contains(l, "openjdk"@) {
        "OpenJDK"@
    } else {
        "Unknown"@
    }
}

/// The vendor of a JDK from its `java -version` output (see [`vendor_of`]).
pub fn parse_vendor(output: &str) -> (r: String)
    ensures
        r@ == vendor_of(output@),
{
    let lower = to_lowercase(output);
    let l = to_chars(lower.as_str());
    if contains_str(&l, "temurin") || contains_str(&l, "adoptium") || contains_str(&l, "adoptopenjdk") {
        owned("Adoptium")
    } else if contains_str(&l, "microsoft") {
        owned("Microsoft")
    } else if contains_str(&l, "zulu") {
        owned("Zulu")
    } else if contains_str(&l, "amazon") || contains_str(&l, "corretto") {
        owned("Amazon")
    } else if contains_str(&l, "oracle") {
        owned("Oracle")
    } else if contains_str(&l, "java(tm) se") || contains_str(&l, "hotspot(tm)") {
        owned("Oracle")
    } else if contains_str(&l, "openjdk") {
        owned("OpenJDK")
    } else {
        owned("Unknown")
    }
}

/// The directory of an executable as the detectors record it: its parent, or
/// the empty text.
pub open spec fn parent_or_empty(path: Seq<char>) -> Seq<char> {
    match win_parent(path) {
        Some(p) => p,
        None => seq![],
    }
}

/// The parent of an executable's path, or the empty text (see [`parent_or_empty`]).
pub fn parent_text(path: &str) -> (r: String)
    ensures
        r@ == parent_or_empty(path@),
{
    let v = to_chars(path);
    match parent_of(&v) {
        Some(p) => from_chars(&p),
        None => String::new(),
    }
}

/// What `java -version` says of a runtime: its output is on stderr, else on
/// stdout; a run that failed, or whose output has no version, says nothing.
/// An executable under 10 KiB is a placeholder and is not run.
pub open spec fn java_probe_view(path: Seq<char>, manager: Seq<char>, too_small: bool, result: Result<ProcessOutput, String>) -> Option<(Seq<char>, Seq<char>, Seq<char>, Seq<char>, Seq<char>, Seq<char>)> {
    if too_small {
        None
    } else {
        match result {
            Ok(o) => if o.exit_code == 0 {
                let out = if o.stderr@.len() == 0 { o.stdout@ } else { o.stderr@ };
                match java_version_of(out) {
                    Some(v) => Some((v, parent_or_empty(path), path, vendor_of(out), manager, "已安装"@)),
                    None => None,
                }
            } else {
                None
            },
            Err(_) => None,
        }
    }
}

/// The runtime at `path` (see [`java_probe_view`]): version, directory,
/// executable, vendor, manager, status.
pub fn java_from_probe(path: &str, manager: &str, too_small: bool, result: &Result<ProcessOutput, String>) -> (r: Option<JavaVersion>)
    ensures
        match java_probe_view(path@, manager@, too_small, *result) {
            Some(t) => r matches Some(j) && (j.version@, j.path@, j.executable@, j.vendor@, j.manager@, j.status@) == t,
            None => r is None,
        },
{
    if too_small {
        return None;
    }
    let o = match result {
        Ok(o) => o,
        Err(_) => {
            return None;
        },
    };
    if o.exit_code != 0 {
        return None;
    }
    let out = if o.stderr.as_str().is_empty() { o.stdout.as_str() } else { o.stderr.as_str() };
    match parse_version(out) {
        Some(version) => Some(
            JavaVersion {
                version,
                path: parent_text(path),
                executable: owned(path),
                vendor: parse_vendor(out),
                manager: owned(manager),
                status: owned("已安装"),
            },
        ),
        None => None,
    }
}

} // verus!
