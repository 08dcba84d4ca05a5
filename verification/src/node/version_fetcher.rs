//! Node.js releases: version checks, download links, and the order of the release list.
use vstd::prelude::*;
use crate::text::{
    parse_unsigned, parse_unsigned_chars, split_char, split_ch, vviews, contains, contains_str,
    has_char, has_ch, trim_start_char, trim_start_char_chars, to_chars, from_chars, push_str,
};
use crate::auto_update::parsed_numbers;
use crate::pattern::{regex_matches, regex_is_match};
use crate::error::owned;
use crate::types::AvailableNodeVersion;
use crate::json::{json_elements, string_member, array_elements, string_member_of};

verus! {

/// One entry of a mirror's `index.json`, as far as the list reads it: its
/// `version` when that is a string, whether `lts` is a string (an LTS
/// codename), and its `date` when that is a string.
#[derive(Debug, Clone)]
pub struct IndexItem {
    pub version: Option<String>,
    pub lts_is_string: bool,
    pub date: Option<String>,
}

/// The pattern of a release version: three dot-separated numbers, nothing else.
pub const VERSION_PATTERN: &'static str = "^\\d+\\.\\d+\\.\\d+$";

/// Why a version string is refused, or `None`.
pub open spec fn version_string_problem(v: Seq<char>) -> Option<Seq<char>> {
    if v.len() == 0 {
        Some("版本号不能为空"@)
    } else if !regex_matches(VERSION_PATTERN@, v) {
        Some("版本号格式无效（需形如 20.11.0）"@)
    } else if contains(v, ".."@) || has_char(v, '/') || has_char(v, '\\') {
        Some("版本号包含非法字符"@)
    } else {
        None
    }
}

/// Checks a release version such as `20.11.0` (see [`version_string_problem`]).
pub fn validate_version_string(version: &str) -> (r: Result<(), String>)
    ensures
        match version_string_problem(version@) {
            None => r is Ok,
            Some(m) => r matches Err(e) && e@ == m,
        },
{
    if version.is_empty() {
        return Err(owned("版本号不能为空"));
    }
    if !regex_is_match(VERSION_PATTERN, version) {
        return Err(owned("版本号格式无效（需形如 20.11.0）"));
    }
    let v = to_chars(version);
    if contains_str(&v, "..") || has_ch(&v, '/') || has_ch(&v, '\\') {
        return Err(owned("版本号包含非法字符"));
    }
    Ok(())
}

/// The `.msi` link of a release on the npmmirror mirror, for the machine's architecture.
pub open spec fn download_url_of(version: Seq<char>, arch: Seq<char>) -> Seq<char> {
    "https://registry.npmmirror.com/-/binary/node/v"@ + version + "/node-v"@ + version + "-"@ + arch
        + ".msi"@
}

/// The installer link of a release for the architecture `arch` (`x64`, `x86`, `arm64`).
pub fn get_download_url(version: &str, arch: &str) -> (r: String)
    ensures
        r@ == download_url_of(version@, arch@),
{
    let mut s: Vec<char> = Vec::new();
    push_str(&mut s, "https://registry.npmmirror.com/-/binary/node/v");
    push_str(&mut s, version);
    push_str(&mut s, "/node-v");
    push_str(&mut s, version);
    push_str(&mut s, "-");
    push_str(&mut s, arch);
    push_str(&mut s, ".msi");
    from_chars(&s)
}

/// The mirrors the release list is fetched from, in the order they are tried.
pub fn release_mirrors() -> (r: Vec<(String, String)>)
    ensures
        r@.len() == 4,
        r@[0].0@ == "阿里云"@ && r@[0].1@ == "https://registry.npmmirror.com/-/binary/node/"@,
        r@[1].0@ == "华为云"@ && r@[1].1@ == "https://mirrors.huaweicloud.com/nodejs/"@,
        r@[2].0@ == "腾讯云"@ && r@[2].1@ == "https://mirrors.cloud.tencent.com/nodejs/"@,
        r@[3].0@ == "官方"@ && r@[3].1@ == "https://nodejs.org/dist/"@,
{
    let mut r: Vec<(String, String)> = Vec::new();
    r.push((owned("阿里云"), owned("https://registry.npmmirror.com/-/binary/node/")));
    r.push((owned("华为云"), owned("https://mirrors.huaweicloud.com/nodejs/")));
    r.push((owned("腾讯云"), owned("https://mirrors.cloud.tencent.com/nodejs/")));
    r.push((owned("官方"), owned("https://nodejs.org/dist/")));
    r
}

/// The release index of a mirror.
pub fn index_url(mirror_url: &str) -> (r: String)
    ensures
        r@ == mirror_url@ + "index.json"@,
{
    let mut s: Vec<char> = Vec::new();
    push_str(&mut s, mirror_url);
    push_str(&mut s, "index.json");
    from_chars(&s)
}

/// A release version without its leading `v`s.
pub fn strip_v_prefix(version: &str) -> (r: String)
    ensures
        r@ == trim_start_char(version@, 'v'),
{
    let v = to_chars(version);
    let t = trim_start_char_chars(&v, 'v');
    from_chars(&t)
}

/// The sort key of a version: its `.`-separated pieces that parse as `u64`.
pub open spec fn version_key(v: Seq<char>) -> Seq<nat> {
    parsed_numbers(split_char(v, '.'))
}

/// Lexicographic comparison of number sequences (`Vec<u64>`'s `Ord`): -1, 0 or 1.
pub open spec fn lex_compare(a: Seq<nat>, b: Seq<nat>) -> int
    decreases a.len(),
{
    if a.len() == 0 {
        if b.len() == 0 { 0 } else { -1 }
    } else if b.len() == 0 {
        1
    } else if a[0] < b[0] {
        -1
    } else if a[0] > b[0] {
        1
    } else {
        lex_compare(a.drop_first(), b.drop_first())
    }
}

pub proof fn lemma_lex_antisym(a: Seq<nat>, b: Seq<nat>)
    ensures
        lex_compare(a, b) == -lex_compare(b, a),
    decreases a.len(),
{
    if a.len() > 0 && b.len() > 0 && a[0] == b[0] {
        lemma_lex_antisym(a.drop_first(), b.drop_first());
    }
}

pub proof fn lemma_lex_trans(a: Seq<nat>, b: Seq<nat>, c: Seq<nat>)
    ensures
        lex_compare(a, b) >= 0 && lex_compare(b, c) >= 0 ==> lex_compare(a, c) >= 0,
        lex_compare(a, b) > 0 && lex_compare(b, c) >= 0 ==> lex_compare(a, c) > 0,
        lex_compare(a, b) >= 0 && lex_compare(b, c) > 0 ==> lex_compare(a, c) > 0,
    decreases a.len(),
{
    if a.len() > 0 && b.len() > 0 && c.len() > 0 && a[0] == b[0] && b[0] == c[0] {
        lemma_lex_trans(a.drop_first(), b.drop_first(), c.drop_first());
    }
}

/// The fields of a listed release: version, LTS, date.
pub type NodeReleaseView = (Seq<char>, bool, Seq<char>);

pub open spec fn node_release_view(r: AvailableNodeVersion) -> NodeReleaseView {
    (r.version@, r.is_lts, r.date@)
}

pub open spec fn node_release_views(rs: Seq<AvailableNodeVersion>) -> Seq<NodeReleaseView> {
    Seq::new(rs.len(), |i: int| node_release_view(rs[i]))
}

/// Newest version first, by [`version_key`].
pub open spec fn newest_first(rs: Seq<NodeReleaseView>) -> bool {
    forall|i: int, j: int| 0 <= i < j < rs.len() ==> lex_compare(version_key(rs[i].0), version_key(rs[j].0)) >= 0
}

/// Releases with equal keys keep their order: the `j`-th of the output is the
/// `from[j]`-th of the input, and equal keys come in input order.
pub open spec fn stable_by_key(input: Seq<NodeReleaseView>, output: Seq<NodeReleaseView>, from: Seq<int>) -> bool {
    &&& from.len() == output.len()
    &&& forall|j: int| 0 <= j < output.len() ==> 0 <= #[trigger] from[j] < input.len() && output[j] == input[from[j]]
    &&& forall|j: int, k: int|
        0 <= j < k < output.len() && lex_compare(version_key(output[j].0), version_key(output[k].0)) == 0
            ==> #[trigger] from[j] < #[trigger] from[k]
}

fn numeric_key(version: &str) -> (r: Vec<u64>)
    ensures
        r@.map_values(|x: u64| x as nat) == version_key(version@),
{
    let v = to_chars(version);
    let parts = split_ch(&v, '.');
    let ghost ps = vviews(parts@);
    let mut r: Vec<u64> = Vec::new();
    let mut i: usize = 0;
    assert(ps.take(0) =~= Seq::<Seq<char>>::empty());
    while i < parts.len()
        invariant
            i <= parts.len(),
            ps == vviews(parts@),
            ps == split_char(version@, '.'),
            r@.map_values(|x: u64| x as nat) == parsed_numbers(ps.take(i as int)),
        decreases parts.len() - i,
    {
        assert(ps.take(i + 1).drop_last() =~= ps.take(i as int));
        assert(ps.take(i + 1).last() == parts@[i as int]@);
        match parse_unsigned_chars(&parts[i], u64::MAX) {
            Some(x) => {
                let ghost before = r@;
                r.push(x);
                assert(r@.map_values(|x: u64| x as nat) =~= before.map_values(|x: u64| x as nat) + seq![x as nat]);
            },
            None => {
                assert(parsed_numbers(ps.take(i + 1)) =~= parsed_numbers(ps.take(i as int)));
            },
        }
        i += 1;
    }
    assert(ps.take(parts.len() as int) =~= ps);
    r
}

pub fn compare_keys(a: &Vec<u64>, b: &Vec<u64>) -> (r: i8)
    ensures
        r as int == lex_compare(a@.map_values(|x: u64| x as nat), b@.map_values(|x: u64| x as nat)),
{
    let ghost av = a@.map_values(|x: u64| x as nat);
    let ghost bv = b@.map_values(|x: u64| x as nat);
    let mut i: usize = 0;
    assert(av.skip(0) =~= av);
    assert(bv.skip(0) =~= bv);
    while i < a.len() && i < b.len()
        invariant
            i <= a.len(),
            i <= b.len(),
            av == a@.map_values(|x: u64| x as nat),
            bv == b@.map_values(|x: u64| x as nat),
            lex_compare(av, bv) == lex_compare(av.skip(i as int), bv.skip(i as int)),
        decreases a.len() - i,
    {
        assert(av.skip(i as int)[0] == a@[i as int] as nat);
        assert(bv.skip(i as int)[0] == b@[i as int] as nat);
        if a[i] < b[i] {
            return -1;
        }
        if a[i] > b[i] {
            return 1;
        }
        assert(av.skip(i as int).drop_first() =~= av.skip(i + 1));
        assert(bv.skip(i as int).drop_first() =~= bv.skip(i + 1));
        i += 1;
    }
    if i < a.len() {
        assert(bv.skip(i as int).len() == 0);
        1
    } else if i < b.len() {
        assert(av.skip(i as int).len() == 0);
        -1
    } else {
        assert(av.skip(i as int).len() == 0 && bv.skip(i as int).len() == 0);
        0
    }
}

/// Lists releases newest first by [`version_key`] (a stable sort, descending),
/// as `Vec<u64>` keys order them.
pub fn sort_newest_first(versions: Vec<AvailableNodeVersion>) -> (r: Vec<AvailableNodeVersion>)
    ensures
        newest_first(node_release_views(r@)),
        node_release_views(r@).to_multiset() == node_release_views(versions@).to_multiset(),
        exists|from: Seq<int>| stable_by_key(node_release_views(versions@), node_release_views(r@), from),
{
    let ghost input = node_release_views(versions@);
    let ghost mut from: Seq<int> = seq![];
    let mut out: Vec<AvailableNodeVersion> = Vec::new();
    let mut keys: Vec<Vec<u64>> = Vec::new();
    let n = versions.len();
    let mut taken: usize = 0;
    proof {
        assert(node_release_views(out@) =~= Seq::<NodeReleaseView>::empty());
        assert(input.take(0) =~= Seq::<NodeReleaseView>::empty());
    }
    while taken < n
        invariant
            n == input.len(),
            n == versions@.len(),
            taken <= n,
            node_release_views(versions@) == input,
            keys@.len() == out@.len(),
            forall|k: int| 0 <= k < out@.len() ==> (#[trigger] keys@[k])@.map_values(|x: u64| x as nat)
                == version_key(out@[k].version@),
            newest_first(node_release_views(out@)),
            node_release_views(out@).to_multiset() == input.take(taken as int).to_multiset(),
            stable_by_key(input.take(taken as int), node_release_views(out@), from),
        decreases n - taken,
    {
        let x = AvailableNodeVersion {
            version: versions[taken].version.clone(),
            is_lts: versions[taken].is_lts,
            date: versions[taken].date.clone(),
        };
        let ghost xv = node_release_view(x);
        assert(xv == input[taken as int]);
        let xk = numeric_key(x.version.as_str());
        let ghost xkey = version_key(x.version@);
        let mut pos: usize = 0;
        while pos < out.len() && compare_keys(&keys[pos], &xk) >= 0
            invariant
                pos <= out@.len(),
                keys@.len() == out@.len(),
                xk@.map_values(|x: u64| x as nat) == xkey,
                forall|k: int| 0 <= k < out@.len() ==> (#[trigger] keys@[k])@.map_values(|x: u64| x as nat)
                    == version_key(out@[k].version@),
                forall|k: int| 0 <= k < pos ==> lex_compare(version_key((#[trigger] out@[k]).version@), xkey) >= 0,
            decreases out.len() - pos,
        {
            pos += 1;
        }
        let ghost before = node_release_views(out@);
        let ghost keys_before = keys@;
        let ghost out_before = out@;
        proof {
            if pos < out@.len() {
                assert(lex_compare(version_key(out@[pos as int].version@), xkey) < 0);
            }
        }
        out.insert(pos, x);
        keys.insert(pos, xk);
        proof {
            let after = node_release_views(out@);
            assert(after =~= before.insert(pos as int, xv));
            assert forall|k: int| 0 <= k < out@.len() implies (#[trigger] keys@[k])@.map_values(|x: u64| x as nat)
                == version_key(out@[k].version@) by {
                if k < pos {
                    assert(keys@[k] == keys_before[k] && out@[k] == out_before[k]);
                } else if k > pos {
                    assert(keys@[k] == keys_before[k - 1] && out@[k] == out_before[k - 1]);
                }
            }
            assert forall|k: int| pos < k < after.len() implies lex_compare(xkey, version_key(after[k].0)) > 0 by {
                assert(after[k] == before[k - 1]);
                assert(lex_compare(version_key(before[pos as int].0), version_key(before[k - 1].0)) >= 0 || k - 1
                    == pos);
                lemma_lex_antisym(version_key(before[pos as int].0), xkey);
                lemma_lex_trans(xkey, version_key(before[pos as int].0), version_key(before[k - 1].0));
            }
            assert forall|i: int, j: int| 0 <= i < j < after.len() implies lex_compare(
                version_key(after[i].0),
                version_key(after[j].0),
            ) >= 0 by {
                if i < pos && j < pos {
                } else if i < pos && j == pos {
                } else if i < pos && j > pos {
                    assert(after[j] == before[j - 1]);
                } else if i == pos {
                } else {
                    assert(after[i] == before[i - 1] && after[j] == before[j - 1]);
                }
            }
            vstd::seq_lib::to_multiset_insert(before, pos as int, xv);
            assert(input.take(taken + 1) =~= input.take(taken as int).push(xv));
            vstd::seq_lib::to_multiset_build(input.take(taken as int), xv);
            let nfrom = from.insert(pos as int, taken as int);
            let ninput = input.take(taken + 1);
            assert forall|j: int| 0 <= j < after.len() implies 0 <= #[trigger] nfrom[j] < ninput.len() && after[j]
                == ninput[nfrom[j]] by {
                if j < pos {
                    assert(nfrom[j] == from[j] && after[j] == before[j]);
                } else if j > pos {
                    assert(nfrom[j] == from[j - 1] && after[j] == before[j - 1]);
                }
            }
            assert forall|j: int, k: int|
                0 <= j < k < after.len() && lex_compare(version_key(after[j].0), version_key(after[k].0)) == 0
                    implies #[trigger] nfrom[j] < #[trigger] nfrom[k] by {
                if j < pos && k < pos {
                    assert(after[j] == before[j] && after[k] == before[k]);
                } else if j < pos && k == pos {
                    assert(nfrom[j] == from[j]);
                } else if j < pos && k > pos {
                    assert(after[j] == before[j] && after[k] == before[k - 1]);
                    assert(nfrom[j] == from[j] && nfrom[k] == from[k - 1]);
                } else if j == pos {
                    assert(lex_compare(xkey, version_key(after[k].0)) > 0);
                } else {
                    assert(after[j] == before[j - 1] && after[k] == before[k - 1]);
                    assert(nfrom[j] == from[j - 1] && nfrom[k] == from[k - 1]);
                }
            }
            from = nfrom;
        }
        taken += 1;
    }
    assert(input.take(n as int) =~= input);
    out
}

/// At most the first 100 releases of the list.
pub fn keep_latest(versions: &mut Vec<AvailableNodeVersion>)
    ensures
        final(versions)@ == old(versions)@.take(if old(versions)@.len() < 100 { old(versions)@.len() as int } else { 100 }),
{
    while versions.len() > 100
        invariant
            versions@.len() >= 100 ==> versions@ == old(versions)@.take(versions@.len() as int),
            versions@.len() < 100 ==> versions@ == old(versions)@,
            versions@.len() <= old(versions)@.len(),
        decreases versions.len(),
    {
        versions.pop();
    }
}

/// What the list reads of an index entry: its version, whether its `lts` is
/// a string, its date.
pub type IndexItemView = (Option<Seq<char>>, bool, Option<Seq<char>>);

pub open spec fn index_item_view(it: IndexItem) -> IndexItemView {
    (
        match it.version {
            Some(v) => Some(v@),
            None => None,
        },
        it.lts_is_string,
        match it.date {
            Some(d) => Some(d@),
            None => None,
        },
    )
}

pub open spec fn index_item_views(items: Seq<IndexItem>) -> Seq<IndexItemView> {
    Seq::new(items.len(), |i: int| index_item_view(items[i]))
}

/// The releases an index lists: entries without a version are dropped; the
/// version loses its leading `v`s; a missing date is empty.
pub open spec fn index_entries(items: Seq<IndexItemView>) -> Seq<NodeReleaseView>
    decreases items.len(),
{
    if items.len() == 0 {
        seq![]
    } else {
        let prev = index_entries(items.drop_last());
        let it = items.last();
        match it.0 {
            Some(v) => prev.push((
                trim_start_char(v, 'v'),
                it.1,
                match it.2 {
                    Some(d) => d,
                    None => seq![],
                },
            )),
            None => prev,
        }
    }
}

/// The releases of an index, newest first (see [`index_entries`] and
/// [`sort_newest_first`]).
pub fn releases_from_index(items: &Vec<IndexItem>) -> (r: Vec<AvailableNodeVersion>)
    ensures
        newest_first(node_release_views(r@)),
        node_release_views(r@).to_multiset() == index_entries(index_item_views(items@)).to_multiset(),
        exists|from: Seq<int>| stable_by_key(index_entries(index_item_views(items@)), node_release_views(r@), from),
{
    let ghost all = index_item_views(items@);
    let mut out: Vec<AvailableNodeVersion> = Vec::new();
    let mut i: usize = 0;
    assert(all.take(0) =~= Seq::<IndexItemView>::empty());
    assert(node_release_views(out@) =~= Seq::<NodeReleaseView>::empty());
    while i < items.len()
        invariant
            i <= items@.len(),
            all == index_item_views(items@),
            node_release_views(out@) == index_entries(all.take(i as int)),
        decreases items.len() - i,
    {
        assert(all.take(i + 1).drop_last() =~= all.take(i as int));
        assert(all.take(i + 1).last() == index_item_view(items@[i as int]));
        let ghost before = node_release_views(out@);
        match &items[i].version {
            Some(v) => {
                let date = match &items[i].date {
                    Some(d) => d.clone(),
                    None => String::new(),
                };
                let entry = AvailableNodeVersion {
                    version: strip_v_prefix(v.as_str()),
                    is_lts: items[i].lts_is_string,
                    date,
                };
                out.push(entry);
                assert(node_release_views(out@) =~= before.push(node_release_view(out@[out@.len() - 1])));
            },
            None => {},
        }
        i += 1;
    }
    assert(all.take(items@.len() as int) =~= all);
    sort_newest_first(out)
}

/// What the list reads of one element of `index.json`: its string `version`,
/// whether its `lts` is a string, its string `date`.
pub open spec fn index_element_view(e: Seq<char>) -> IndexItemView {
    (string_member(e, "version"@), string_member(e, "lts"@) is Some, string_member(e, "date"@))
}

pub open spec fn index_element_views(es: Seq<Seq<char>>) -> Seq<IndexItemView> {
    Seq::new(es.len(), |i: int| index_element_view(es[i]))
}

/// The entries of a mirror's `index.json` (see [`index_element_view`]), in
/// order; a body that is not a JSON array is an error.
pub fn index_items(body: &str) -> (r: Result<Vec<IndexItem>, String>)
    ensures
        match json_elements(body@) {
            Err(m) => r matches Err(e) && e@ == "JSON 解析失败: "@ + m,
            Ok(es) => r matches Ok(items) && index_item_views(items@) == index_element_views(es),
        },
{
    let elems = match array_elements(body) {
        Ok(es) => es,
        Err(e) => {
            let mut m: Vec<char> = Vec::new();
            push_str(&mut m, "JSON 解析失败: ");
            push_str(&mut m, e.as_str());
            return Err(from_chars(&m));
        },
    };
    let ghost es = Seq::new(elems@.len(), |i: int| elems@[i]@);
    let mut items: Vec<IndexItem> = Vec::new();
    let mut i: usize = 0;
    while i < elems.len()
        invariant
            i <= elems@.len(),
            es == Seq::new(elems@.len(), |i: int| elems@[i]@),
            items@.len() == i,
            forall|k: int| 0 <= k < i ==> index_item_view(#[trigger] items@[k]) == index_element_view(es[k]),
        decreases elems.len() - i,
    {
        let e = elems[i].as_str();
        let version = string_member_of(e, "version");
        let lts = string_member_of(e, "lts");
        let date = string_member_of(e, "date");
        items.push(IndexItem { version, lts_is_string: lts.is_some(), date });
        i += 1;
    }
    assert(index_item_views(items@) =~= index_element_views(es));
    Ok(items)
}

/// The releases a mirror's `index.json` lists, newest first (see
/// [`index_items`] and [`releases_from_index`]).
pub fn parse_index(body: &str) -> (r: Result<Vec<AvailableNodeVersion>, String>)
    ensures
        match json_elements(body@) {
            Err(m) => r matches Err(e) && e@ == "JSON 解析失败: "@ + m,
            Ok(es) => r matches Ok(vs) && newest_first(node_release_views(vs@)) && node_release_views(vs@).to_multiset()
                == index_entries(index_element_views(es)).to_multiset()
                && exists|from: Seq<int>| stable_by_key(
                index_entries(index_element_views(es)),
                node_release_views(vs@),
                from,
            ),
        },
{
    match index_items(body) {
        Ok(items) => Ok(releases_from_index(&items)),
        Err(e) => Err(e),
    }
}

} // verus!
