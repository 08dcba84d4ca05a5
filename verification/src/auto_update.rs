//! Application update check: comparison of dotted version numbers.
use vstd::prelude::*;
use crate::text::{
    parse_unsigned, parse_unsigned_chars, split_ch, split_char, to_chars, trim, trim_chars,
    trim_start_char, trim_start_char_chars, vviews, push_str, push_all, from_chars, decimal,
    decimal_chars, is_ws, trim_start, trim_end, find_char, lemma_find_char,
    lemma_first_occurrence, occurs_at, digits_value, digit_value,
};
use crate::types::UpdateInfo;
use crate::error::owned;

verus! {

/// The numbers that survive parsing, in order: pieces that do not parse as `u64` are dropped.
pub open spec fn parsed_numbers(parts: Seq<Seq<char>>) -> Seq<nat>
    decreases parts.len(),
{
    if parts.len() == 0 {
        seq![]
    } else {
        parsed_numbers(parts.drop_last()) + match parse_unsigned(parts.last(), u64::MAX as nat) {
            Some(v) => seq![v],
            None => seq![],
        }
    }
}

/// The numeric segments of a version text: white space and leading `v`s removed,
/// split at `.`, unparsable segments dropped.
pub open spec fn version_segments(s: Seq<char>) -> Seq<nat> {
    parsed_numbers(split_char(trim(trim_start_char(trim(s), 'v')), '.'))
}

/// Segment `i` of a version, a missing segment counting as 0.
pub open spec fn segment(v: Seq<nat>, i: nat) -> nat {
    if i < v.len() {
        v[i as int]
    } else {
        0
    }
}

/// Whether `lat` is above `cur` when comparing segment by segment from `i` on.
pub open spec fn above_from(cur: Seq<nat>, lat: Seq<nat>, i: nat) -> bool
    decreases (if cur.len() > lat.len() { cur.len() } else { lat.len() }) - i,
{
    if i >= cur.len() && i >= lat.len() {
        false
    } else if segment(lat, i) > segment(cur, i) {
        true
    } else if segment(lat, i) < segment(cur, i) {
        false
    } else {
        above_from(cur, lat, i + 1)
    }
}

/// `latest` is a newer version than `current`: both parse to at least one segment,
/// and `latest` is above `current` in segment order.
pub open spec fn newer(current: Seq<char>, latest: Seq<char>) -> bool {
    let c = version_segments(current);
    let l = version_segments(latest);
    c.len() > 0 && l.len() > 0 && above_from(c, l, 0)
}

/// The numeric segments of a version text such as `"0.1.0"` or `"v0.2.0"`.
pub fn parse_version(s: &str) -> (r: Vec<u64>)
    ensures
        r@.map_values(|x: u64| x as nat) == version_segments(s@),
{
    let v = to_chars(s);
    let t1 = trim_chars(&v);
    let t2 = trim_start_char_chars(&t1, 'v');
    let t3 = trim_chars(&t2);
    let parts = split_ch(&t3, '.');
    let ghost ps = vviews(parts@);
    let mut r: Vec<u64> = Vec::new();
    let mut i: usize = 0;
    assert(ps.take(0) =~= Seq::<Seq<char>>::empty());
    while i < parts.len()
        invariant
            i <= parts.len(),
            ps == vviews(parts@),
            r@.map_values(|x: u64| x as nat) == parsed_numbers(ps.take(i as int)),
        decreases parts.len() - i,
    {
        assert(ps.take(i + 1).drop_last() =~= ps.take(i as int));
        assert(ps.take(i + 1).last() == parts@[i as int]@);
        match parse_unsigned_chars(&parts[i], u64::MAX) {
            Some(x) => {
                let ghost before = r@;
                r.push(x);
                assert(r@.map_values(|x: u64| x as nat) =~= before.map_values(|x: u64| x as nat)
                    + seq![x as nat]);
            },
            None => {
                assert(parsed_numbers(ps.take(i + 1)) =~= parsed_numbers(ps.take(i as int)));
            },
        }
        i += 1;
    }
    assert(ps.take(parts.len() as int) =~= ps);
    r
}

/// `true` when `latest` is a newer version than `current`.  Segments are compared
/// numerically from the left, a missing segment counting as 0; a version with no
/// numeric segment makes the answer `false`.
pub fn is_newer_version(current: &str, latest: &str) -> (r: bool)
    ensures
        r == newer(current@, latest@),
{
    let cur = parse_version(current);
    let lat = parse_version(latest);
    let ghost c = cur@.map_values(|x: u64| x as nat);
    let ghost l = lat@.map_values(|x: u64| x as nat);
    if cur.len() == 0 || lat.len() == 0 {
        return false;
    }
    let n = if cur.len() > lat.len() { cur.len() } else { lat.len() };
    let mut i: usize = 0;
    while i < n
        invariant
            i <= n,
            n == if cur.len() > lat.len() { cur.len() } else { lat.len() },
            c == cur@.map_values(|x: u64| x as nat),
            l == lat@.map_values(|x: u64| x as nat),
            c == version_segments(current@),
            l == version_segments(latest@),
            cur.len() > 0,
            lat.len() > 0,
            above_from(c, l, 0) == above_from(c, l, i as nat),
        decreases n - i,
    {
        let cv: u64 = if i < cur.len() { cur[i] } else { 0 };
        let lv: u64 = if i < lat.len() { lat[i] } else { 0 };
        assert(cv as nat == segment(c, i as nat));
        assert(lv as nat == segment(l, i as nat));
        if lv > cv {
            return true;
        }
        if lv < cv {
            return false;
        }
        i += 1;
    }
    false
}

// ---------------------------------------------------------------------------
// Laws of the comparison
// ---------------------------------------------------------------------------

proof fn lemma_above_irreflexive(v: Seq<nat>, i: nat)
    ensures
        !above_from(v, v, i),
    decreases v.len() - i,
{
    if i < v.len() {
        lemma_above_irreflexive(v, i + 1);
    }
}

proof fn lemma_above_asymmetric(a: Seq<nat>, b: Seq<nat>, i: nat)
    ensures
        above_from(a, b, i) ==> !above_from(b, a, i),
    decreases (if a.len() > b.len() { a.len() } else { b.len() }) - i,
{
    if !(i >= a.len() && i >= b.len()) && segment(a, i) == segment(b, i) {
        lemma_above_asymmetric(a, b, i + 1);
    }
}

proof fn lemma_above_transitive(a: Seq<nat>, b: Seq<nat>, c: Seq<nat>, i: nat)
    ensures
        above_from(a, b, i) && above_from(b, c, i) ==> above_from(a, c, i),
    decreases (if a.len() > b.len() { if a.len() > c.len() { a.len() } else { c.len() } }
        else { if b.len() > c.len() { b.len() } else { c.len() } }) - i,
{
    if above_from(a, b, i) && above_from(b, c, i) {
        if segment(a, i) == segment(b, i) && segment(b, i) == segment(c, i) {
            lemma_above_transitive(a, b, c, i + 1);
        }
    }
}

/// No version is newer than itself.
pub proof fn law_newer_irreflexive(v: Seq<char>)
    ensures
        !newer(v, v),
{
    lemma_above_irreflexive(version_segments(v), 0);
}

/// If `b` is newer than `a`, then `a` is not newer than `b`.
pub proof fn law_newer_asymmetric(a: Seq<char>, b: Seq<char>)
    ensures
        newer(a, b) ==> !newer(b, a),
{
    lemma_above_asymmetric(version_segments(a), version_segments(b), 0);
}

/// Newer-than is transitive.
pub proof fn law_newer_transitive(a: Seq<char>, b: Seq<char>, c: Seq<char>)
    ensures
        newer(a, b) && newer(b, c) ==> newer(a, c),
{
    lemma_above_transitive(version_segments(a), version_segments(b), version_segments(c), 0);
}

proof fn lemma_above_zero_extension(a: Seq<nat>, b: Seq<nat>, i: nat)
    requires
        b.len() >= a.len(),
        forall|j: int| a.len() <= j < b.len() ==> b[j] == 0,
        forall|j: int| 0 <= j < a.len() ==> b[j] == a[j],
    ensures
        !above_from(a, b, i) && !above_from(b, a, i),
    decreases b.len() - i,
{
    if i < b.len() {
        lemma_above_zero_extension(a, b, i + 1);
    }
}

/// Trailing zero segments do not matter: a version and the same version with
/// extra `0` segments are not newer than one another.
pub proof fn law_trailing_zero_segments(a: Seq<char>, b: Seq<char>)
    requires
        version_segments(b).len() >= version_segments(a).len(),
        forall|j: int| 0 <= j < version_segments(a).len()
            ==> version_segments(b)[j] == version_segments(a)[j],
        forall|j: int| version_segments(a).len() <= j < version_segments(b).len()
            ==> version_segments(b)[j] == 0,
    ensures
        !newer(a, b) && !newer(b, a),
{
    lemma_above_zero_extension(version_segments(a), version_segments(b), 0);
}

proof fn lemma_above_push_zero(a: Seq<nat>, l: Seq<nat>, i: nat)
    ensures
        above_from(a.push(0), l, i) == above_from(a, l, i),
        above_from(l, a.push(0), i) == above_from(l, a, i),
    decreases (if a.len() + 1 > l.len() { a.len() + 1 } else { l.len() }) - i,
{
    let b = a.push(0);
    assert(segment(b, i) == segment(a, i));
    if !(i >= b.len() && i >= l.len()) {
        lemma_above_push_zero(a, l, i + 1);
    }
}

proof fn lemma_trim_end_after_v(x: Seq<char>)
    ensures
        trim_end(seq!['v'] + x) == seq!['v'] + trim_end(x),
    decreases x.len(),
{
    let y = seq!['v'] + x;
    if x.len() > 0 {
        assert(y.last() == x.last());
        if is_ws(x.last()) {
            assert(y.drop_last() =~= seq!['v'] + x.drop_last());
            lemma_trim_end_after_v(x.drop_last());
        }
    }
}

/// A leading `v` is ignored: prefixing `v` to a text that does not start with
/// white space leaves its segments unchanged.
proof fn lemma_segments_v_prefix(b: Seq<char>)
    requires
        b.len() == 0 || !is_ws(b[0]),
    ensures
        version_segments(seq!['v'] + b) == version_segments(b),
{
    let y = seq!['v'] + b;
    assert(y[0] == 'v');
    assert(trim_start(y) == y);
    assert(trim_start(b) == b);
    lemma_trim_end_after_v(b);
    let z = seq!['v'] + trim_end(b);
    assert(z.drop_first() =~= trim_end(b));
    assert(trim_start_char(z, 'v') == trim_start_char(trim_end(b), 'v'));
}

proof fn lemma_split_append_zero(x: Seq<char>)
    ensures
        split_char(x + seq!['.', '0'], '.') == split_char(x, '.') + seq![seq!['0']],
    decreases x.len(),
{
    let y = x + seq!['.', '0'];
    lemma_find_char(x, '.');
    lemma_find_char(seq!['0'], '.');
    assert(split_char(seq!['0'], '.') == seq![seq!['0']]);
    match find_char(x, '.') {
        Some(i) => {
            assert(y.subrange(i as int, i + 1 as int) =~= seq!['.']);
            assert forall|j: int| 0 <= j < i implies !occurs_at(y, seq!['.'], j) by {
                assert(y.subrange(j, j + 1)[0] == x[j]);
            }
            lemma_first_occurrence(y, seq!['.'], i as int);
            assert(y.take(i as int) =~= x.take(i as int));
            assert(y.skip((i + 1) as int) =~= x.skip((i + 1) as int) + seq!['.', '0']);
            lemma_split_append_zero(x.skip((i + 1) as int));
            assert(split_char(y, '.') =~= split_char(x, '.') + seq![seq!['0']]);
        },
        None => {
            assert(y.subrange(x.len() as int, x.len() + 1 as int) =~= seq!['.']);
            assert forall|j: int| 0 <= j < x.len() implies !occurs_at(y, seq!['.'], j) by {
                assert(y.subrange(j, j + 1)[0] == x[j]);
            }
            lemma_first_occurrence(y, seq!['.'], x.len() as int);
            assert(y.take(x.len() as int) =~= x);
            assert(y.skip(x.len() + 1 as int) =~= seq!['0']);
            assert(split_char(y, '.') =~= split_char(x, '.') + seq![seq!['0']]);
        },
    }
}

proof fn lemma_trim_start_char_append(s: Seq<char>, y: Seq<char>)
    requires
        trim_start_char(s, 'v').len() > 0,
    ensures
        trim_start_char(s + y, 'v') == trim_start_char(s, 'v') + y,
        trim_start_char(s, 'v').last() == s.last(),
        (forall|j: int| 0 <= j < s.len() ==> !is_ws(s[j]))
            ==> !is_ws(trim_start_char(s, 'v')[0]),
    decreases s.len(),
{
    if s.len() > 0 && s[0] == 'v' {
        assert((s + y).drop_first() =~= s.drop_first() + y);
        lemma_trim_start_char_append(s.drop_first(), y);
        assert(s.drop_first().last() == s.last());
        if forall|j: int| 0 <= j < s.len() ==> !is_ws(s[j]) {
            assert forall|j: int| 0 <= j < s.drop_first().len() implies !is_ws(
                s.drop_first()[j],
            ) by {
                assert(s.drop_first()[j] == s[j + 1]);
            }
        }
    } else {
        assert((s + y)[0] == s[0]);
    }
}

proof fn lemma_no_segments_in_empty()
    ensures
        parsed_numbers(split_char(Seq::<char>::empty(), '.')) == Seq::<nat>::empty(),
{
    let e = Seq::<char>::empty();
    lemma_find_char(e, '.');
    assert(split_char(e, '.') =~= seq![e]);
    let p: Seq<Seq<char>> = seq![e];
    assert(p.drop_last() =~= Seq::<Seq<char>>::empty());
    assert(p.last() == e);
    assert(parse_unsigned(e, u64::MAX as nat) is None);
    assert(parsed_numbers(Seq::<Seq<char>>::empty()) =~= Seq::<nat>::empty());
    assert(parsed_numbers(p) =~= Seq::<nat>::empty());
}

/// Appending a `.0` segment to a text without white space and with at least one
/// segment adds a `0` segment at the end.
proof fn lemma_segments_append_zero(c: Seq<char>)
    requires
        forall|j: int| 0 <= j < c.len() ==> !is_ws(c[j]),
        version_segments(c).len() > 0,
    ensures
        version_segments(c + seq!['.', '0']) == version_segments(c).push(0),
{
    let y = c + seq!['.', '0'];
    let t = trim_start_char(c, 'v');
    if c.len() == 0 {
        assert(c =~= Seq::<char>::empty());
        assert(trim_start(c) == c);
        assert(trim_end(c) == c);
        assert(trim(c) == c);
        assert(trim_start_char(c, 'v') == c);
        lemma_no_segments_in_empty();
        assert(false);
    }
    assert(trim_start(c) == c);
    assert(trim_end(c) == c);
    assert(y[0] == c[0]);
    assert(trim_start(y) == y);
    assert(y.last() == '0');
    assert(trim_end(y) == y);
    if t.len() == 0 {
        assert(trim_start(t) == t);
        assert(trim_end(t) == t);
        assert(t =~= Seq::<char>::empty());
        lemma_no_segments_in_empty();
        assert(false);
    }
    lemma_trim_start_char_append(c, seq!['.', '0']);
    let u = t + seq!['.', '0'];
    assert(u[0] == t[0]);
    assert(trim_start(t) == t);
    assert(trim_end(t) == t);
    assert(trim_start(u) == u);
    assert(u.last() == '0');
    assert(trim_end(u) == u);
    lemma_split_append_zero(t);
    let p = split_char(t, '.') + seq![seq!['0']];
    assert(p.drop_last() =~= split_char(t, '.'));
    assert(digits_value(seq!['0']) == 0) by {
        let z: Seq<char> = seq!['0'];
        assert(z.drop_last() =~= Seq::<char>::empty());
        assert(digits_value(Seq::<char>::empty()) == 0);
        assert(z.last() == '0');
        assert(digit_value('0') == 0);
    }
    assert(parse_unsigned(seq!['0'], u64::MAX as nat) == Some(0nat));
}

/// A leading `v` does not change the comparison: for texts that do not start
/// with white space, `v` followed by `b` compares as `b` does, on either side.
pub proof fn law_newer_v_prefix(a: Seq<char>, b: Seq<char>)
    requires
        b.len() == 0 || !is_ws(b[0]),
    ensures
        newer(a, seq!['v'] + b) == newer(a, b),
        newer(seq!['v'] + b, a) == newer(b, a),
{
    lemma_segments_v_prefix(b);
}

/// A trailing `.0` does not change the comparison: for a version text without
/// white space that has at least one numeric segment, appending `.0` gives a
/// version that compares as the original does, on either side.
pub proof fn law_newer_trailing_zero(c: Seq<char>, b: Seq<char>)
    requires
        forall|j: int| 0 <= j < c.len() ==> !is_ws(c[j]),
        version_segments(c).len() > 0,
    ensures
        newer(c + seq!['.', '0'], b) == newer(c, b),
        newer(b, c + seq!['.', '0']) == newer(b, c),
{
    lemma_segments_append_zero(c);
    lemma_above_push_zero(version_segments(c), version_segments(b), 0);
}

/// The latest release as the GitHub releases API describes it.
#[derive(Debug, Clone)]
pub struct GitHubRelease {
    /// The tag, such as `v0.2.0`.
    pub tag_name: String,
    pub name: Option<String>,
    /// The release notes.
    pub body: Option<String>,
    pub html_url: String,
    pub published_at: String,
}

/// The answer when the status of the releases request decides it: 404 (no
/// release yet) is no update; any other status outside 200..=299 is an error.
pub open spec fn status_answer(status: u16) -> Option<Result<(), Seq<char>>> {
    if status == 404 {
        Some(Ok(()))
    } else if !(200 <= status && status <= 299) {
        Some(Err("GitHub API 返回状态码: "@ + decimal(status as nat)))
    } else {
        None
    }
}

/// Decides an update check on the HTTP status alone (see [`status_answer`]);
/// `None` when the body must be read.
pub fn status_verdict(current_version: String, status: u16) -> (r: Option<Result<UpdateInfo, String>>)
    ensures
        match status_answer(status) {
            Some(Ok(())) => r matches Some(Ok(u)) && !u.has_update && u.current_version == current_version
                && u.latest_version@.len() == 0 && u.html_url@.len() == 0 && u.body is None && u.published_at is None,
            Some(Err(m)) => r matches Some(Err(e)) && e@ == m,
            None => r is None,
        },
{
    if status == 404 {
        Some(
            Ok(
                UpdateInfo {
                    has_update: false,
                    current_version,
                    latest_version: String::new(),
                    html_url: String::new(),
                    body: None,
                    published_at: None,
                },
            ),
        )
    } else if !(200 <= status && status <= 299) {
        let mut m: Vec<char> = Vec::new();
        push_str(&mut m, "GitHub API 返回状态码: ");
        let d = decimal_chars(status as u64);
        push_all(&mut m, &d);
        Some(Err(from_chars(&m)))
    } else {
        None
    }
}

/// The answer from the latest release: its version is the tag without leading
/// `v`s, and an update exists when that version is [`newer`] than the current one.
pub fn update_from_release(current_version: String, release: GitHubRelease) -> (r: UpdateInfo)
    ensures
        r.latest_version@ == trim_start_char(release.tag_name@, 'v'),
        r.has_update == newer(current_version@, trim_start_char(release.tag_name@, 'v')),
        r.current_version == current_version,
        r.html_url == release.html_url,
        r.body == release.body,
        r.published_at == Some(release.published_at),
{
    let tag = to_chars(release.tag_name.as_str());
    let latest = from_chars(&trim_start_char_chars(&tag, 'v'));
    let has_update = is_newer_version(current_version.as_str(), latest.as_str());
    UpdateInfo {
        has_update,
        current_version,
        latest_version: latest,
        html_url: release.html_url,
        body: release.body,
        published_at: Some(release.published_at),
    }
}

} // verus!
