//! Regular-expression matching and Unicode lower-casing, taken from the `regex`
//! crate and from `std`.  Their results are named, not re-derived: what a pattern
//! matches is whatever the regex engine decides.
use vstd::prelude::*;

verus! {

/// Whether the regular expression `pattern` matches somewhere in `text`.
pub uninterp spec fn regex_matches(pattern: Seq<char>, text: Seq<char>) -> bool;

/// Group `group` of the first match of `pattern` in `text`, if there is a match
/// and the group took part in it.
pub uninterp spec fn regex_first_capture(pattern: Seq<char>, text: Seq<char>, group: nat) -> Option<
    Seq<char>,
>;

/// Group `group` of every successive non-overlapping match of `pattern` in `text`,
/// skipping matches in which the group did not take part.
pub uninterp spec fn regex_all_captures(pattern: Seq<char>, text: Seq<char>, group: nat) -> Seq<
    Seq<char>,
>;

/// Unicode lower-casing of a character sequence (`str::to_lowercase`).
pub uninterp spec fn unicode_lower(s: Seq<char>) -> Seq<char>;

/// `regex::Regex::new(pattern)` followed by `Regex::is_match(text)`.
/// Claimed: the result is `regex_matches(pattern, text)`; an invalid pattern gives `false`.
#[verifier::external_body]
pub(crate) fn regex_is_match(pattern: &str, text: &str) -> (r: bool)
    ensures
        r == regex_matches(pattern@, text@),
{
    match regex::Regex::new(pattern) {
        Ok(re) => re.is_match(text),
        Err(_) => false,
    }
}

/// `regex::Regex::new(pattern)` followed by `Regex::captures(text)` and `Captures::get(group)`.
/// Claimed: the text of the group is `regex_first_capture(pattern, text, group)`;
/// an invalid pattern gives `None`.
#[verifier::external_body]
pub(crate) fn regex_capture(pattern: &str, text: &str, group: usize) -> (r: Option<String>)
    ensures
        r.deep_view() == regex_first_capture(pattern@, text@, group as nat),
{
    let re = match regex::Regex::new(pattern) {
        Ok(re) => re,
        Err(_) => return None,
    };
    match re.captures(text) {
        Some(caps) => match caps.get(group) {
            Some(m) => Some(m.as_str().to_string()),
            None => None,
        },
        None => None,
    }
}

/// `regex::Regex::new(pattern)` followed by `Regex::captures_iter(text)`, keeping group `group`
/// of each match.  Claimed: the texts are `regex_all_captures(pattern, text, group)`, in match
/// order; an invalid pattern gives an empty vector.
#[verifier::external_body]
pub(crate) fn regex_capture_all(pattern: &str, text: &str, group: usize) -> (r: Vec<String>)
    ensures
        r.deep_view() == regex_all_captures(pattern@, text@, group as nat),
{
    let mut out: Vec<String> = Vec::new();
    if let Ok(re) = regex::Regex::new(pattern) {
        for caps in re.captures_iter(text) {
            if let Some(m) = caps.get(group) {
                out.push(m.as_str().to_string());
            }
        }
    }
    out
}

/// `str::to_lowercase`.  Claimed: the result is `unicode_lower(s)`.
#[verifier::external_body]
pub(crate) fn to_lowercase(s: &str) -> (r: String)
    ensures
        r@ == unicode_lower(s@),
{
    s.to_lowercase()
}

/// A character that has a meaning in a regular expression
/// (`regex_syntax::is_meta_character`).
pub open spec fn is_regex_meta(c: char) -> bool {
    c == '\\' || c == '.' || c == '+' || c == '*' || c == '?' || c == '(' || c == ')' || c == '|'
        || c == '[' || c == ']' || c == '{' || c == '}' || c == '^' || c == '$' || c == '#' || c
        == '&' || c == '-' || c == '~'
}

/// The text with a `\` put before every meta character, so that a pattern
/// matches it literally.
pub open spec fn regex_escaped(s: Seq<char>) -> Seq<char>
    decreases s.len(),
{
    if s.len() == 0 {
        seq![]
    } else {
        regex_escaped(s.drop_last()) + if is_regex_meta(s.last()) {
            seq!['\\', s.last()]
        } else {
            seq![s.last()]
        }
    }
}

/// `regex::escape`.  Claimed, as its source shows: every meta character gets a
/// `\` before it and every other character stays as it is.
#[verifier::external_body]
pub(crate) fn regex_escape(s: &str) -> (r: String)
    ensures
        r@ == regex_escaped(s@),
{
    regex::escape(s)
}

} // verus!
