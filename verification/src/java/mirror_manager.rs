//! Maven mirrors: the default list, which one `settings.xml` selects, and the
//! rewriting of its `<mirrors>` block.
use vstd::prelude::*;
use crate::text::{
    find, find_str, lemma_find_from, lemma_first_occurrence, occurs_at, has_char, trim, trim_chars,
    trim_end_char, trim_end_char_chars, to_chars, from_chars, slice, push_str, push_all, chars_eq,
};
use crate::process_manager::{mirror_url_refusal, check_mirror_url};
use crate::error::owned;
use crate::types::MavenMirror;

verus! {

/// Checks a mirror URL and words a refusal for the user.
pub fn validate_mirror_url(url: &str) -> (r: Result<(), String>)
    ensures
        match mirror_url_refusal(url@) {
            None => r is Ok,
            Some(m) => r matches Err(e) && e@ == m,
        },
{
    check_mirror_url(url)
}

/// The fields of a mirror: name, URL, active.
pub open spec fn mirror_view(m: MavenMirror) -> (Seq<char>, Seq<char>, bool) {
    (m.name@, m.url@, m.active)
}

pub open spec fn mirror_views(ms: Seq<MavenMirror>) -> Seq<(Seq<char>, Seq<char>, bool)> {
    Seq::new(ms.len(), |i: int| mirror_view(ms[i]))
}

/// The default mirrors: the official repository (active), Aliyun, Huawei Cloud, Tencent Cloud.
pub open spec fn default_mirrors() -> Seq<(Seq<char>, Seq<char>, bool)> {
    seq![
        ("官方源"@, "https://repo.maven.apache.org/maven2/"@, true),
        ("阿里云"@, "https://maven.aliyun.com/repository/public/"@, false),
        ("华为云"@, "https://repo.huaweicloud.com/repository/maven-public/"@, false),
        ("腾讯云"@, "https://mirrors.cloud.tencent.com/nexus/repository/maven-public/"@, false),
    ]
}

/// The default Maven mirrors (see [`default_mirrors`]).
pub fn get_default_mirrors() -> (r: Vec<MavenMirror>)
    ensures
        mirror_views(r@) == default_mirrors(),
{
    let mut r: Vec<MavenMirror> = Vec::new();
    r.push(MavenMirror { name: owned("官方源"), url: owned("https://repo.maven.apache.org/maven2/"), active: true });
    r.push(MavenMirror { name: owned("阿里云"), url: owned("https://maven.aliyun.com/repository/public/"), active: false });
    r.push(
        MavenMirror {
            name: owned("华为云"),
            url: owned("https://repo.huaweicloud.com/repository/maven-public/"),
            active: false,
        },
    );
    r.push(
        MavenMirror {
            name: owned("腾讯云"),
            url: owned("https://mirrors.cloud.tencent.com/nexus/repository/maven-public/"),
            active: false,
        },
    );
    assert(mirror_views(r@) =~= default_mirrors());
    r
}

/// A URL trimmed and without trailing `/`, for comparison.
pub open spec fn normalized_url(url: Seq<char>) -> Seq<char> {
    trim_end_char(trim(url), '/')
}

/// Normalizes a URL for comparison (see [`normalized_url`]).
pub fn normalize_url(url: &str) -> (r: String)
    ensures
        r@ == normalized_url(url@),
{
    let v = to_chars(url);
    let t = trim_chars(&v);
    let u = trim_end_char_chars(&t, '/');
    from_chars(&u)
}

/// The URL of the first `<url>` inside the `<mirrors>` block, trimmed; none
/// without both block tags in order, or without both `<url>` tags in it.
pub open spec fn mirror_url_in(content: Seq<char>) -> Option<Seq<char>> {
    match (find(content, "<mirrors>"@), find(content, "</mirrors>"@)) {
        (Some(s), Some(e)) => if e <= s {
            None
        } else {
            let block = content.subrange(s as int, e as int);
            match (find(block, "<url>"@), find(block, "</url>"@)) {
                (Some(us), Some(ue)) => Some(trim(block.subrange((us + 5) as int, ue as int))),
                _ => None,
            }
        },
        _ => None,
    }
}

/// The slicing between the `<url>` tags would run backwards: `</url>` comes
/// before the end of `<url>` inside the block.
pub open spec fn mirror_url_panics(content: Seq<char>) -> bool {
    match (find(content, "<mirrors>"@), find(content, "</mirrors>"@)) {
        (Some(s), Some(e)) => e > s && {
            let block = content.subrange(s as int, e as int);
            match (find(block, "<url>"@), find(block, "</url>"@)) {
                (Some(us), Some(ue)) => ue < us + 5,
                _ => false,
            }
        },
        _ => false,
    }
}

/// The URL of the first mirror in a `settings.xml` (see [`mirror_url_in`]).
pub fn parse_mirror_url_from_xml(content: &str) -> (r: Option<String>)
    requires
        !mirror_url_panics(content@),
    ensures
        r.deep_view() == mirror_url_in(content@),
{
    let v = to_chars(content);
    let s = match find_str(&v, "<mirrors>") {
        Some(s) => s,
        None => {
            return None;
        },
    };
    let e = match find_str(&v, "</mirrors>") {
        Some(e) => e,
        None => {
            return None;
        },
    };
    if e <= s {
        return None;
    }
    proof {
        lemma_find_from(content@, "</mirrors>"@, 0);
    }
    let block = slice(&v, s, e);
    let us = match find_str(&block, "<url>") {
        Some(x) => x,
        None => {
            return None;
        },
    };
    let ue = match find_str(&block, "</url>") {
        Some(x) => x,
        None => {
            return None;
        },
    };
    proof {
        lemma_find_from(block@, "<url>"@, 0);
        lemma_find_from(block@, "</url>"@, 0);
        reveal_strlit("<url>");
    }
    let inner = slice(&block, us + 5, ue);
    let t = trim_chars(&inner);
    Some(from_chars(&t))
}

/// The `<mirrors>` block selecting one mirror for everything.
pub open spec fn mirrors_block(name: Seq<char>, url: Seq<char>) -> Seq<char> {
    "<mirrors>\n    <mirror>\n      <id>"@ + name + "</id>\n      <mirrorOf>*</mirrorOf>\n      <url>"@ + url
        + "</url>\n    </mirror>\n  </mirrors>"@
}

/// Builds the block of [`mirrors_block`].
pub fn build_mirrors_block(name: &str, url: &str) -> (r: String)
    ensures
        r@ == mirrors_block(name@, url@),
{
    let mut s: Vec<char> = Vec::new();
    push_str(&mut s, "<mirrors>\n    <mirror>\n      <id>");
    push_str(&mut s, name);
    push_str(&mut s, "</id>\n      <mirrorOf>*</mirrorOf>\n      <url>");
    push_str(&mut s, url);
    push_str(&mut s, "</url>\n    </mirror>\n  </mirrors>");
    from_chars(&s)
}

/// A whole `settings.xml` that selects one mirror.
pub open spec fn settings_xml(name: Seq<char>, url: Seq<char>) -> Seq<char> {
    "<?xml version=\"1.0\" encoding=\"UTF-8\"?>\n<settings xmlns=\"http://maven.apache.org/SETTINGS/1.0.0\"\n          xmlns:xsi=\"http://www.w3.org/2001/XMLSchema-instance\"\n          xsi:schemaLocation=\"http://maven.apache.org/SETTINGS/1.0.0 https://maven.apache.org/xsd/settings-1.0.0.xsd\">\n  <mirrors>\n    <mirror>\n      <id>"@
        + name + "</id>\n      <mirrorOf>*</mirrorOf>\n      <url>"@ + url
        + "</url>\n    </mirror>\n  </mirrors>\n</settings>"@
}

/// Builds the file of [`settings_xml`].
pub fn build_settings_xml(mirror_name: &str, mirror_url: &str) -> (r: String)
    ensures
        r@ == settings_xml(mirror_name@, mirror_url@),
{
    let mut s: Vec<char> = Vec::new();
    push_str(&mut s, "<?xml version=\"1.0\" encoding=\"UTF-8\"?>\n<settings xmlns=\"http://maven.apache.org/SETTINGS/1.0.0\"\n          xmlns:xsi=\"http://www.w3.org/2001/XMLSchema-instance\"\n          xsi:schemaLocation=\"http://maven.apache.org/SETTINGS/1.0.0 https://maven.apache.org/xsd/settings-1.0.0.xsd\">\n  <mirrors>\n    <mirror>\n      <id>");
    push_str(&mut s, mirror_name);
    push_str(&mut s, "</id>\n      <mirrorOf>*</mirrorOf>\n      <url>");
    push_str(&mut s, mirror_url);
    push_str(&mut s, "</url>\n    </mirror>\n  </mirrors>\n</settings>");
    from_chars(&s)
}

/// `settings.xml` with its `<mirrors>` block replaced by `block`; without one,
/// the block goes before `</settings>`, or at the end after a line break.
pub open spec fn replaced_mirrors(content: Seq<char>, block: Seq<char>) -> Seq<char> {
    let s = find(content, "<mirrors>"@);
    let e = find(content, "</mirrors>"@);
    if s is Some && e is Some && e->0 > s->0 {
        content.take(s->0 as int) + block + content.skip((e->0 + 10) as int)
    } else {
        match find(content, "</settings>"@) {
            Some(c) => content.take(c as int) + "  "@ + block + "\n</settings>"@,
            None => content + "\n"@ + block,
        }
    }
}

/// Replaces (or adds) the `<mirrors>` block of a `settings.xml` (see [`replaced_mirrors`]).
pub fn replace_mirrors_block(content: &str, new_block: &str) -> (r: String)
    ensures
        r@ == replaced_mirrors(content@, new_block@),
{
    let v = to_chars(content);
    let b = to_chars(new_block);
    let s = find_str(&v, "<mirrors>");
    let e = find_str(&v, "</mirrors>");
    match (s, e) {
        (Some(s), Some(e)) => {
            if e > s {
                proof {
                    lemma_find_from(content@, "</mirrors>"@, 0);
                    reveal_strlit("</mirrors>");
                }
                let mut out = slice(&v, 0, s);
                push_all(&mut out, &b);
                let tail = slice(&v, e + 10, v.len());
                push_all(&mut out, &tail);
                let r = from_chars(&out);
                assert(r@ =~= replaced_mirrors(content@, new_block@));
                return r;
            }
        },
        _ => {},
    }
    match find_str(&v, "</settings>") {
        Some(c) => {
            proof {
                lemma_find_from(content@, "</settings>"@, 0);
            }
            let mut out = slice(&v, 0, c);
            push_str(&mut out, "  ");
            push_all(&mut out, &b);
            push_str(&mut out, "\n</settings>");
            let r = from_chars(&out);
            assert(r@ =~= replaced_mirrors(content@, new_block@));
            r
        },
        None => {
            let mut out = v.clone();
            push_str(&mut out, "\n");
            push_all(&mut out, &b);
            let r = from_chars(&out);
            assert(r@ =~= replaced_mirrors(content@, new_block@));
            r
        },
    }
}

/// The mirrors with the one whose normalized URL equals the configured one
/// marked active, and every other one inactive; with nothing configured the
/// list is left as it is.
pub open spec fn with_active(ms: Seq<(Seq<char>, Seq<char>, bool)>, active: Option<Seq<char>>) -> Seq<(Seq<char>, Seq<char>, bool)> {
    match active {
        Some(a) => Seq::new(ms.len(), |i: int| (ms[i].0, ms[i].1, normalized_url(ms[i].1) == normalized_url(a))),
        None => ms,
    }
}

/// Marks the mirror `settings.xml` selects (see [`with_active`]).
pub fn mark_active_mirror(mirrors: &mut Vec<MavenMirror>, active_url: Option<&str>)
    ensures
        mirror_views(final(mirrors)@) == with_active(
            mirror_views(old(mirrors)@),
            match active_url {
                Some(a) => Some(a@),
                None => None,
            },
        ),
{
    match active_url {
        Some(a) => {
            let an = normalize_url(a);
            let av = to_chars(an.as_str());
            let ghost before = mirror_views(mirrors@);
            let mut i: usize = 0;
            while i < mirrors.len()
                invariant
                    i <= mirrors@.len(),
                    before.len() == mirrors@.len(),
                    av@ == normalized_url(a@),
                    forall|k: int| i <= k < mirrors@.len() ==> mirror_view(#[trigger] mirrors@[k]) == before[k],
                    forall|k: int|
                        0 <= k < i ==> mirror_view(#[trigger] mirrors@[k]) == (
                            before[k].0,
                            before[k].1,
                            normalized_url(before[k].1) == normalized_url(a@),
                        ),
                decreases mirrors.len() - i,
            {
                let n = normalize_url(mirrors[i].url.as_str());
                let nv = to_chars(n.as_str());
                let same = chars_eq(&nv, &av);
                let m = MavenMirror { name: mirrors[i].name.clone(), url: mirrors[i].url.clone(), active: same };
                mirrors.set(i, m);
                i += 1;
            }
            assert(mirror_views(mirrors@) =~= with_active(before, Some(a@)));
        },
        None => {},
    }
}


/// A `<mirrors>` block written after a prefix in which neither block tag
/// begins is read back: its URL, trimmed.
proof fn lemma_block_read_back(p: Seq<char>, name: Seq<char>, url: Seq<char>, q: Seq<char>)
    requires
        !has_char(name, '<'),
        !has_char(url, '<'),
        forall|j: int| 0 <= j < p.len() ==> !occurs_at(p + mirrors_block(name, url) + q, "<mirrors>"@, j),
        forall|j: int| 0 <= j < p.len() ==> !occurs_at(p + mirrors_block(name, url) + q, "</mirrors>"@, j),
    ensures
        mirror_url_in(p + mirrors_block(name, url) + q) == Some(trim(url)),
        !mirror_url_panics(p + mirrors_block(name, url) + q),
{
    let b = "<mirrors>\n    <mirror>\n      <id>"@;
    let m = "</id>\n      <mirrorOf>*</mirrorOf>\n      <url>"@;
    let t = "</url>\n    </mirror>\n  </mirrors>"@;
    let t1 = "<mirrors>"@;
    let t2 = "</mirrors>"@;
    let t3 = "<url>"@;
    let t4 = "</url>"@;
    reveal_strlit("<mirrors>\n    <mirror>\n      <id>");
    reveal_strlit("</id>\n      <mirrorOf>*</mirrorOf>\n      <url>");
    reveal_strlit("</url>\n    </mirror>\n  </mirrors>");
    reveal_strlit("<mirrors>");
    reveal_strlit("</mirrors>");
    reveal_strlit("<url>");
    reveal_strlit("</url>");
    let blk = mirrors_block(name, url);
    let x = p + blk + q;
    let pl = p.len() as int;
    let n = name.len() as int;
    let u = url.len() as int;
    assert(blk =~= b + name + m + url + t);
    assert(b.len() == 33 && m.len() == 46 && t.len() == 33);
    assert forall|i: int| 0 <= i < 33 implies #[trigger] x[pl + i] == b[i] by {}
    assert forall|i: int| 0 <= i < n implies #[trigger] x[pl + 33 + i] == name[i] by {}
    assert forall|i: int| 0 <= i < 46 implies #[trigger] x[pl + 33 + n + i] == m[i] by {}
    assert forall|i: int| 0 <= i < u implies #[trigger] x[pl + 79 + n + i] == url[i] by {}
    assert forall|i: int| 0 <= i < 33 implies #[trigger] x[pl + 79 + n + u + i] == t[i] by {}
    // the block opens where the written block starts
    assert(x.subrange(pl, pl + 9) =~= t1);
    lemma_first_occurrence(x, t1, pl);
    // and closes at the written `</mirrors>`
    let e = pl + 79 + n + u + 23;
    assert(x.subrange(e, e + 10) =~= t2) by {
        assert forall|i: int| 0 <= i < 10 implies x.subrange(e, e + 10)[i] == t2[i] by {
            assert(x[pl + 79 + n + u + (23 + i)] == t[23 + i]);
        }
    }
    assert forall|j: int| 0 <= j < e implies !occurs_at(x, t2, j) by {
        if j >= pl && occurs_at(x, t2, j) {
            let w = x.subrange(j, j + 10);
            assert(w[0] == x[j] && w[1] == x[j + 1] && w[2] == x[j + 2] && w[8] == x[j + 8]);
            if j < pl + 33 {
                assert(x[pl + (j - pl)] == b[j - pl]);
                if j + 1 < pl + 33 {
                    assert(x[pl + (j + 1 - pl)] == b[j + 1 - pl]);
                }
            } else if j < pl + 33 + n {
                assert(x[pl + 33 + (j - pl - 33)] == name[j - pl - 33]);
            } else if j < pl + 79 + n {
                let o = j - pl - 33 - n;
                assert(x[pl + 33 + n + o] == m[o]);
                if o + 1 < 46 { assert(x[pl + 33 + n + (o + 1)] == m[o + 1]); }
                if o + 2 < 46 { assert(x[pl + 33 + n + (o + 2)] == m[o + 2]); }
                if o + 8 < 46 { assert(x[pl + 33 + n + (o + 8)] == m[o + 8]); }
            } else if j < pl + 79 + n + u {
                assert(x[pl + 79 + n + (j - pl - 79 - n)] == url[j - pl - 79 - n]);
            } else {
                let o = j - pl - 79 - n - u;
                assert(x[pl + 79 + n + u + o] == t[o]);
                assert(x[pl + 79 + n + u + (o + 1)] == t[o + 1]);
                assert(x[pl + 79 + n + u + (o + 2)] == t[o + 2]);
                assert(x[pl + 79 + n + u + (o + 8)] == t[o + 8]);
            }
        }
    }
    lemma_first_occurrence(x, t2, e);
    let block = x.subrange(pl, e);
    assert forall|i: int| 0 <= i < e - pl implies #[trigger] block[i] == x[pl + i] by {}
    // the first `<url>` of the block is the written one
    let us = 74 + n;
    assert(block.subrange(us, us + 5) =~= t3) by {
        assert forall|i: int| 0 <= i < 5 implies block.subrange(us, us + 5)[i] == t3[i] by {
            assert(block[us + i] == x[pl + us + i]);
            assert(x[pl + 33 + n + (41 + i)] == m[41 + i]);
        }
    }
    assert forall|j: int| 0 <= j < us implies !occurs_at(block, t3, j) by {
        if occurs_at(block, t3, j) {
            let w = block.subrange(j, j + 5);
            assert(w[0] == block[j] && w[1] == block[j + 1]);
            assert(block[j] == x[pl + j] && block[j + 1] == x[pl + j + 1]);
            if j < 33 {
                assert(x[pl + j] == b[j]);
                if j + 1 < 33 {
                    assert(x[pl + (j + 1)] == b[j + 1]);
                }
            } else if j < 33 + n {
                assert(x[pl + 33 + (j - 33)] == name[j - 33]);
            } else {
                let o = j - 33 - n;
                assert(x[pl + 33 + n + o] == m[o]);
                assert(x[pl + 33 + n + (o + 1)] == m[o + 1]);
            }
        }
    }
    lemma_first_occurrence(block, t3, us);
    // and the first `</url>` closes the written URL
    let ue = 79 + n + u;
    assert(block.subrange(ue, ue + 6) =~= t4) by {
        assert forall|i: int| 0 <= i < 6 implies block.subrange(ue, ue + 6)[i] == t4[i] by {
            assert(block[ue + i] == x[pl + ue + i]);
            assert(x[pl + 79 + n + u + i] == t[i]);
        }
    }
    assert forall|j: int| 0 <= j < ue implies !occurs_at(block, t4, j) by {
        if occurs_at(block, t4, j) {
            let w = block.subrange(j, j + 6);
            assert(w[0] == block[j] && w[1] == block[j + 1] && w[2] == block[j + 2]);
            assert(block[j] == x[pl + j] && block[j + 1] == x[pl + j + 1] && block[j + 2] == x[pl + j + 2]);
            if j < 33 {
                assert(x[pl + j] == b[j]);
                if j + 1 < 33 {
                    assert(x[pl + (j + 1)] == b[j + 1]);
                }
            } else if j < 33 + n {
                assert(x[pl + 33 + (j - 33)] == name[j - 33]);
            } else if j < 79 + n {
                let o = j - 33 - n;
                assert(x[pl + 33 + n + o] == m[o]);
                if o + 1 < 46 { assert(x[pl + 33 + n + (o + 1)] == m[o + 1]); }
                if o + 2 < 46 { assert(x[pl + 33 + n + (o + 2)] == m[o + 2]); }
            } else {
                assert(x[pl + 79 + n + (j - 79 - n)] == url[j - 79 - n]);
            }
        }
    }
    lemma_first_occurrence(block, t4, ue);
    assert(block.subrange(us + 5, ue) =~= url) by {
        assert forall|i: int| 0 <= i < u implies block.subrange(us + 5, ue)[i] == url[i] by {
            assert(block[79 + n + i] == x[pl + 79 + n + i]);
        }
    }
}


/// A `settings.xml` written for a mirror reads back that mirror's URL
/// (trimmed), when neither its name nor its URL holds a `<`.
pub proof fn law_written_settings_read_back(name: Seq<char>, url: Seq<char>)
    requires
        !has_char(name, '<'),
        !has_char(url, '<'),
    ensures
        !mirror_url_panics(settings_xml(name, url)),
        mirror_url_in(settings_xml(name, url)) == Some(trim(url)),
{
    let h = "<?xml version=\"1.0\" encoding=\"UTF-8\"?>\n<settings xmlns=\"http://maven.apache.org/SETTINGS/1.0.0\"\n          xmlns:xsi=\"http://www.w3.org/2001/XMLSchema-instance\"\n          xsi:schemaLocation=\"http://maven.apache.org/SETTINGS/1.0.0 https://maven.apache.org/xsd/settings-1.0.0.xsd\">\n  "@;
    let tail = "\n</settings>"@;
    reveal_strlit("<?xml version=\"1.0\" encoding=\"UTF-8\"?>\n<settings xmlns=\"http://maven.apache.org/SETTINGS/1.0.0\"\n          xmlns:xsi=\"http://www.w3.org/2001/XMLSchema-instance\"\n          xsi:schemaLocation=\"http://maven.apache.org/SETTINGS/1.0.0 https://maven.apache.org/xsd/settings-1.0.0.xsd\">\n  ");
    reveal_strlit("<?xml version=\"1.0\" encoding=\"UTF-8\"?>\n<settings xmlns=\"http://maven.apache.org/SETTINGS/1.0.0\"\n          xmlns:xsi=\"http://www.w3.org/2001/XMLSchema-instance\"\n          xsi:schemaLocation=\"http://maven.apache.org/SETTINGS/1.0.0 https://maven.apache.org/xsd/settings-1.0.0.xsd\">\n  <mirrors>\n    <mirror>\n      <id>");
    reveal_strlit("<mirrors>\n    <mirror>\n      <id>");
    reveal_strlit("</id>\n      <mirrorOf>*</mirrorOf>\n      <url>");
    reveal_strlit("</url>\n    </mirror>\n  </mirrors>\n</settings>");
    reveal_strlit("</url>\n    </mirror>\n  </mirrors>");
    reveal_strlit("\n</settings>");
    reveal_strlit("<mirrors>");
    reveal_strlit("</mirrors>");
    let x = settings_xml(name, url);
    assert(x =~= h + mirrors_block(name, url) + tail);
    assert(h.len() == 281);
    assert forall|i: int| 0 <= i < 281 implies #[trigger] x[i] == h[i] by {}
    assert forall|j: int| 0 <= j < h.len() implies !occurs_at(x, "<mirrors>"@, j) && !occurs_at(x, "</mirrors>"@, j) by {
        if occurs_at(x, "<mirrors>"@, j) {
            let w = x.subrange(j, j + 9);
            assert(w[0] == x[j] && w[1] == x[j + 1]);
            if j + 1 < 281 {
                assert(x[j + 1] == h[j + 1]);
            }
        }
        if occurs_at(x, "</mirrors>"@, j) {
            let w = x.subrange(j, j + 10);
            assert(w[0] == x[j] && w[1] == x[j + 1]);
            if j + 1 < 281 {
                assert(x[j + 1] == h[j + 1]);
            }
        }
    }
    lemma_block_read_back(h, name, url, tail);
}

/// Replacing the `<mirrors>` block of a `settings.xml` (or adding one) and
/// reading the file back gives the new mirror's URL (trimmed), when the file
/// held a well-formed block or no block tag at all, and neither the mirror's
/// name nor its URL holds a `<`.
pub proof fn law_replaced_settings_read_back(content: Seq<char>, name: Seq<char>, url: Seq<char>)
    requires
        !has_char(name, '<'),
        !has_char(url, '<'),
        (find(content, "<mirrors>"@) is None && find(content, "</mirrors>"@) is None) || (match (
            find(content, "<mirrors>"@),
            find(content, "</mirrors>"@),
        ) {
            (Some(s), Some(e)) => e > s,
            _ => false,
        }),
    ensures
        !mirror_url_panics(replaced_mirrors(content, mirrors_block(name, url))),
        mirror_url_in(replaced_mirrors(content, mirrors_block(name, url))) == Some(trim(url)),
{
    reveal_strlit("<mirrors>");
    reveal_strlit("</mirrors>");
    reveal_strlit("<mirrors>\n    <mirror>\n      <id>");
    reveal_strlit("  ");
    reveal_strlit("\n");
    let blk = mirrors_block(name, url);
    let t1 = "<mirrors>"@;
    let t2 = "</mirrors>"@;
    lemma_find_from(content, t1, 0);
    lemma_find_from(content, t2, 0);
    assert(blk[0] == '<');
    if find(content, t1) is Some && find(content, t2) is Some && find(content, t2)->0 > find(content, t1)->0 {
        let s = find(content, t1)->0 as int;
        let e = find(content, t2)->0 as int;
        let p = content.take(s);
        let q = content.skip(e + 10);
        let x = p + blk + q;
        assert(replaced_mirrors(content, blk) =~= x);
        assert forall|j: int| 0 <= j < p.len() implies !occurs_at(x, t1, j) && !occurs_at(x, t2, j) by {
            if occurs_at(x, t1, j) {
                if j + 9 <= s {
                    assert(x.subrange(j, j + 9) =~= content.subrange(j, j + 9));
                    assert(occurs_at(content, t1, j));
                } else {
                    assert(x.subrange(j, j + 9)[s - j] == x[s]);
                    assert(x[s] == blk[0]);
                }
            }
            if occurs_at(x, t2, j) {
                if j + 10 <= s {
                    assert(x.subrange(j, j + 10) =~= content.subrange(j, j + 10));
                    assert(occurs_at(content, t2, j));
                } else {
                    assert(x.subrange(j, j + 10)[s - j] == x[s]);
                    assert(x[s] == blk[0]);
                }
            }
        }
        lemma_block_read_back(p, name, url, q);
    } else {
        let (p, q) = match find(content, "</settings>"@) {
            Some(c) => (content.take(c as int) + "  "@, "\n</settings>"@),
            None => (content + "\n"@, seq![]),
        };
        let c = match find(content, "</settings>"@) {
            Some(c) => c as int,
            None => content.len() as int,
        };
        lemma_find_from(content, "</settings>"@, 0);
        let x = p + blk + q;
        assert(replaced_mirrors(content, blk) =~= x);
        assert(p.take(c) =~= content.take(c));
        assert forall|i: int| c <= i < p.len() implies #[trigger] p[i] == ' ' || p[i] == '\n' by {}
        assert forall|j: int| 0 <= j < p.len() implies !occurs_at(x, t1, j) && !occurs_at(x, t2, j) by {
            if occurs_at(x, t1, j) {
                if j + 9 <= c {
                    assert(x.subrange(j, j + 9) =~= content.subrange(j, j + 9));
                    assert(occurs_at(content, t1, j));
                } else if j < c {
                    assert(x.subrange(j, j + 9)[c - j] == x[c]);
                    assert(x[c] == p[c]);
                } else {
                    assert(x.subrange(j, j + 9)[0] == x[j]);
                    assert(x[j] == p[j]);
                }
            }
            if occurs_at(x, t2, j) {
                if j + 10 <= c {
                    assert(x.subrange(j, j + 10) =~= content.subrange(j, j + 10));
                    assert(occurs_at(content, t2, j));
                } else if j < c {
                    assert(x.subrange(j, j + 10)[c - j] == x[c]);
                    assert(x[c] == p[c]);
                } else {
                    assert(x.subrange(j, j + 10)[0] == x[j]);
                    assert(x[j] == p[j]);
                }
            }
        }
        lemma_block_read_back(p, name, url, q);
    }
}

/// The default Maven mirrors are four different ones, each at its provider: the
/// official repository (the one active by default) at repo.maven.apache.org,
/// Aliyun's at maven.aliyun.com, Huawei Cloud's at repo.huaweicloud.com and
/// Tencent Cloud's at mirrors.cloud.tencent.com; no two share a name or a URL.
pub proof fn law_maven_mirrors_at_their_providers()
    ensures
        default_mirrors().len() == 4,
        forall|i: int, j: int|
            0 <= i < j < default_mirrors().len() ==> (#[trigger] default_mirrors()[i]).1
                != (#[trigger] default_mirrors()[j]).1 && default_mirrors()[i].0 != default_mirrors()[j].0,
        forall|i: int| 0 <= i < default_mirrors().len() ==> {
            let m = #[trigger] default_mirrors()[i];
            &&& (m.0 == "官方源"@ <==> crate::text::starts_with(m.1, "https://repo.maven.apache.org/"@))
            &&& (m.0 == "阿里云"@ <==> crate::text::starts_with(m.1, "https://maven.aliyun.com/"@))
            &&& (m.0 == "华为云"@ <==> crate::text::starts_with(m.1, "https://repo.huaweicloud.com/"@))
            &&& (m.0 == "腾讯云"@ <==> crate::text::starts_with(m.1, "https://mirrors.cloud.tencent.com/"@))
            &&& (m.2 <==> m.0 == "官方源"@)
        },
{
    reveal_strlit("https://maven.aliyun.com/");
    reveal_strlit("https://maven.aliyun.com/repository/public/");
    reveal_strlit("https://mirrors.cloud.tencent.com/");
    reveal_strlit("https://mirrors.cloud.tencent.com/nexus/repository/maven-public/");
    reveal_strlit("https://repo.huaweicloud.com/");
    reveal_strlit("https://repo.huaweicloud.com/repository/maven-public/");
    reveal_strlit("https://repo.maven.apache.org/");
    reveal_strlit("https://repo.maven.apache.org/maven2/");
    reveal_strlit("华为云");
    reveal_strlit("官方源");
    reveal_strlit("腾讯云");
    reveal_strlit("阿里云");
    let ms = default_mirrors();
    let u0 = ms[0].1;
    let p0 = "https://repo.maven.apache.org/"@;
    let u1 = ms[1].1;
    let p1 = "https://maven.aliyun.com/"@;
    let u2 = ms[2].1;
    let p2 = "https://repo.huaweicloud.com/"@;
    let u3 = ms[3].1;
    let p3 = "https://mirrors.cloud.tencent.com/"@;
    crate::text::lemma_not_prefix(u0, p1, 8);
    crate::text::lemma_not_prefix(u0, p2, 13);
    crate::text::lemma_not_prefix(u0, p3, 8);
    crate::text::lemma_not_prefix(u1, p0, 8);
    crate::text::lemma_not_prefix(u1, p2, 8);
    crate::text::lemma_not_prefix(u1, p3, 9);
    crate::text::lemma_not_prefix(u2, p0, 13);
    crate::text::lemma_not_prefix(u2, p1, 8);
    crate::text::lemma_not_prefix(u2, p3, 8);
    crate::text::lemma_not_prefix(u3, p0, 8);
    crate::text::lemma_not_prefix(u3, p1, 9);
    crate::text::lemma_not_prefix(u3, p2, 8);
    assert(u0[8] != u1[8] && u0[13] != u2[13] && u0[8] != u3[8] && u1[8] != u2[8] && u1[9] != u3[9] && u2[8] != u3[8]);
    assert(ms[0].0[0] != ms[1].0[0] && ms[0].0[0] != ms[2].0[0] && ms[0].0[0] != ms[3].0[0] && ms[1].0[0] != ms[2].0[0] && ms[1].0[0] != ms[3].0[0] && ms[2].0[0] != ms[3].0[0]);
    assert(u0.take(p0.len() as int) =~= p0);
    assert(u1.take(p1.len() as int) =~= p1);
    assert(u2.take(p2.len() as int) =~= p2);
    assert(u3.take(p3.len() as int) =~= p3);
}

} // verus!
