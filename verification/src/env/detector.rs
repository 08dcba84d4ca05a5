//! Recognition of tools in `PATH` entries and detection of `PATH` conflicts.
use vstd::prelude::*;
use crate::text::{
    ascii_lower, contains, contains_str, decimal, decimal_chars, from_chars, join, push_all,
    push_str, split_ch, split_char, to_ascii_lower, to_chars, trim, trim_chars, vviews, chars_eq,
};
use crate::types::{EnvPath, PathConflict};

verus! {

/// The tool a `PATH` entry belongs to, judged from its ASCII-lower-cased text.
pub open spec fn tool_of(path: Seq<char>) -> Option<Seq<char>> {
    let l = ascii_lower(path);
    if contains(l, "node_modules"@) {
        None
    } else if contains(l, "\\java"@) || contains(l, "\\jdk"@) || contains(l, "/java"@) || contains(
        l,
        "/jdk"@,
    ) {
        Some("java"@)
    } else if contains(l, "python"@) {
        Some("python"@)
    } else if contains(l, "nodejs"@) || contains(l, "\\node"@) || contains(l, "/node"@) {
        Some("node"@)
    } else if contains(l, "\\git"@) || contains(l, "/git"@) {
        Some("git"@)
    } else if contains(l, "mysql"@) {
        Some("mysql"@)
    } else if contains(l, "postgresql"@) || contains(l, "\\pg"@) {
        Some("postgresql"@)
    } else {
        None
    }
}

/// Recognises the tool a `PATH` entry belongs to (java, python, node, git, mysql,
/// postgresql); entries under `node_modules` belong to none.
pub fn detect_tool(path: &str) -> (r: Option<String>)
    ensures
        r.deep_view() == tool_of(path@),
{
    let p = to_chars(path);
    let l = to_ascii_lower(&p);
    if contains_str(&l, "node_modules") {
        return None;
    }
    if contains_str(&l, "\\java") || contains_str(&l, "\\jdk") || contains_str(&l, "/java")
        || contains_str(&l, "/jdk") {
        return Some(String::from_str("java"));
    }
    if contains_str(&l, "python") {
        return Some(String::from_str("python"));
    }
    if contains_str(&l, "nodejs") || contains_str(&l, "\\node") || contains_str(&l, "/node") {
        return Some(String::from_str("node"));
    }
    if contains_str(&l, "\\git") || contains_str(&l, "/git") {
        return Some(String::from_str("git"));
    }
    if contains_str(&l, "mysql") {
        return Some(String::from_str("mysql"));
    }
    if contains_str(&l, "postgresql") || contains_str(&l, "\\pg") {
        return Some(String::from_str("postgresql"));
    }
    None
}

/// The entries of a raw `PATH` value: split at `;`, blank pieces dropped, the rest trimmed.
pub open spec fn path_entries(raw: Seq<char>) -> Seq<Seq<char>>
    decreases split_char(raw, ';').len(),
{
    kept_entries(split_char(raw, ';'))
}

/// The trimmed non-blank pieces, in order.
pub open spec fn kept_entries(parts: Seq<Seq<char>>) -> Seq<Seq<char>>
    decreases parts.len(),
{
    if parts.len() == 0 {
        seq![]
    } else {
        let prev = kept_entries(parts.drop_last());
        let t = trim(parts.last());
        if t.len() == 0 {
            prev
        } else {
            prev.push(t)
        }
    }
}

/// Splits a raw `PATH` value into its trimmed, non-blank entries.
pub fn split_path_value(raw: &str) -> (r: Vec<String>)
    ensures
        r.deep_view() == path_entries(raw@),
{
    let v = to_chars(raw);
    let parts = split_ch(&v, ';');
    let ghost ps = vviews(parts@);
    let mut out: Vec<String> = Vec::new();
    let mut i: usize = 0;
    assert(ps.take(0) =~= Seq::<Seq<char>>::empty());
    assert(out.deep_view() =~= Seq::<Seq<char>>::empty());
    while i < parts.len()
        invariant
            i <= parts.len(),
            ps == vviews(parts@),
            out.deep_view() == kept_entries(ps.take(i as int)),
        decreases parts.len() - i,
    {
        assert(ps.take(i + 1).drop_last() =~= ps.take(i as int));
        assert(ps.take(i + 1).last() == parts@[i as int]@);
        let t = trim_chars(&parts[i]);
        if t.len() > 0 {
            let ghost before = out.deep_view();
            out.push(from_chars(&t));
            assert(out.deep_view() =~= before.push(t@));
        }
        i += 1;
    }
    assert(ps.take(parts.len() as int) =~= ps);
    out
}

/// The fields of a `PATH` entry that conflict detection reads: path, exists, tool.
pub type EntryView = (Seq<char>, bool, Option<Seq<char>>);

/// The fields of a reported conflict: kind, tool, paths, message.
pub type ConflictView = (Seq<char>, Option<Seq<char>>, Seq<Seq<char>>, Seq<char>);

pub open spec fn entry_view(e: EnvPath) -> EntryView {
    (e.path@, e.exists, e.tool.deep_view())
}

pub open spec fn entry_views(xs: Seq<EnvPath>) -> Seq<EntryView> {
    Seq::new(xs.len(), |i: int| entry_view(xs[i]))
}

pub open spec fn conflict_view(c: PathConflict) -> ConflictView {
    (c.kind@, c.tool.deep_view(), c.paths.deep_view(), c.message@)
}

pub open spec fn conflict_views(cs: Seq<PathConflict>) -> Seq<ConflictView> {
    Seq::new(cs.len(), |i: int| conflict_view(cs[i]))
}

/// How many entries of `xs` have the key (lower-cased path) `key`.
pub open spec fn key_count(xs: Seq<EntryView>, key: Seq<char>) -> nat
    decreases xs.len(),
{
    if xs.len() == 0 {
        0
    } else {
        key_count(xs.drop_last(), key) + if ascii_lower(xs.last().0) == key { 1nat } else { 0nat }
    }
}

/// The paths whose key is seen for the second time, in order: one per duplicated key.
pub open spec fn duplicate_paths(xs: Seq<EntryView>) -> Seq<Seq<char>>
    decreases xs.len(),
{
    if xs.len() == 0 {
        seq![]
    } else {
        let prev = duplicate_paths(xs.drop_last());
        if key_count(xs.drop_last(), ascii_lower(xs.last().0)) == 1 {
            prev.push(xs.last().0)
        } else {
            prev
        }
    }
}

/// The paths of the entries that do not exist, in order.
pub open spec fn missing_paths(xs: Seq<EntryView>) -> Seq<Seq<char>>
    decreases xs.len(),
{
    if xs.len() == 0 {
        seq![]
    } else {
        let prev = missing_paths(xs.drop_last());
        if !xs.last().1 {
            prev.push(xs.last().0)
        } else {
            prev
        }
    }
}

/// Index of the group of `tool` in `groups`, searching from `k`.
pub open spec fn group_index(groups: Seq<(Seq<char>, Seq<Seq<char>>)>, tool: Seq<char>, k: nat) -> Option<nat>
    decreases groups.len() - k,
{
    if k >= groups.len() {
        None
    } else if groups[k as int].0 == tool {
        Some(k)
    } else {
        group_index(groups, tool, k + 1)
    }
}

/// The paths of each recognised tool, grouped by tool in order of first appearance.
pub open spec fn tool_groups(xs: Seq<EntryView>) -> Seq<(Seq<char>, Seq<Seq<char>>)>
    decreases xs.len(),
{
    if xs.len() == 0 {
        seq![]
    } else {
        let prev = tool_groups(xs.drop_last());
        let x = xs.last();
        match x.2 {
            Some(t) => match group_index(prev, t, 0) {
                Some(k) => prev.update(k as int, (t, prev[k as int].1.push(x.0))),
                None => prev.push((t, seq![x.0])),
            },
            None => prev,
        }
    }
}

/// The multi-version conflicts: groups with at least two paths, in group order.
pub open spec fn multi_version_conflicts(groups: Seq<(Seq<char>, Seq<Seq<char>>)>) -> Seq<ConflictView>
    decreases groups.len(),
{
    if groups.len() == 0 {
        seq![]
    } else {
        let prev = multi_version_conflicts(groups.drop_last());
        let g = groups.last();
        if g.1.len() >= 2 {
            prev.push(
                (
                    "multi_version"@,
                    Some(g.0),
                    g.1,
                    "检测到 "@ + decimal(g.1.len()) + " 个 "@ + g.0 + " 路径："@ + join(g.1, "；"@),
                ),
            )
        } else {
            prev
        }
    }
}

/// All conflicts among the entries: duplicates, then missing paths, then tools
/// found in more than one entry.
pub open spec fn conflicts_of(xs: Seq<EntryView>) -> Seq<ConflictView> {
    let d = duplicate_paths(xs);
    let m = missing_paths(xs);
    let dup: Seq<ConflictView> = if d.len() > 0 {
        seq![("duplicate"@, None, d, "检测到 "@ + decimal(d.len()) + " 条重复路径"@)]
    } else {
        seq![]
    };
    let mis: Seq<ConflictView> = if m.len() > 0 {
        seq![("missing"@, None, m, "检测到 "@ + decimal(m.len()) + " 条不存在的路径"@)]
    } else {
        seq![]
    };
    dup + mis + multi_version_conflicts(tool_groups(xs))
}

/// Number of entries among the first `n` whose key is `key`.
fn count_key(paths: &[EnvPath], keys: &Vec<Vec<char>>, n: usize, key: &Vec<char>) -> (c: usize)
    requires
        n <= paths@.len(),
        keys@.len() == paths@.len(),
        forall|j: int| 0 <= j < paths@.len() ==> (#[trigger] keys@[j])@ == ascii_lower(paths@[j].path@),
    ensures
        c as nat == key_count(entry_views(paths@).take(n as int), key@),
{
    let ghost xs = entry_views(paths@);
    let mut c: usize = 0;
    let mut i: usize = 0;
    assert(xs.take(0) =~= Seq::<EntryView>::empty());
    while i < n
        invariant
            i <= n <= paths@.len(),
            xs == entry_views(paths@),
            keys@.len() == paths@.len(),
            forall|j: int| 0 <= j < paths@.len() ==> (#[trigger] keys@[j])@ == ascii_lower(paths@[j].path@),
            c as nat == key_count(xs.take(i as int), key@),
            c <= i,
        decreases n - i,
    {
        assert(xs.take(i + 1).drop_last() =~= xs.take(i as int));
        if chars_eq(&keys[i], key) {
            c += 1;
        }
        i += 1;
    }
    c
}

/// Finds `PATH` problems: entries repeated (ASCII case ignored), entries that do
/// not exist, and tools that more than one entry belongs to.  Tools are reported
/// in the order in which they first appear.
pub fn detect_conflicts(paths: &[EnvPath]) -> (r: Vec<PathConflict>)
    ensures
        conflict_views(r@) == conflicts_of(entry_views(paths@)),
{
    let ghost xs = entry_views(paths@);
    let n = paths.len();
    // Keys: the ASCII-lower-cased paths.
    let mut keys: Vec<Vec<char>> = Vec::new();
    let mut i: usize = 0;
    while i < n
        invariant
            i <= n == paths@.len(),
            keys@.len() == i,
            forall|j: int| 0 <= j < i ==> (#[trigger] keys@[j])@ == ascii_lower(paths@[j].path@),
        decreases n - i,
    {
        let p = to_chars(paths[i].path.as_str());
        keys.push(to_ascii_lower(&p));
        i += 1;
    }
    // 1. Duplicates.
    let mut dups: Vec<String> = Vec::new();
    let mut i: usize = 0;
    assert(xs.take(0) =~= Seq::<EntryView>::empty());
    assert(dups.deep_view() =~= Seq::<Seq<char>>::empty());
    while i < n
        invariant
            i <= n == paths@.len(),
            xs == entry_views(paths@),
            keys@.len() == paths@.len(),
            forall|j: int| 0 <= j < paths@.len() ==> (#[trigger] keys@[j])@ == ascii_lower(paths@[j].path@),
            dups.deep_view() == duplicate_paths(xs.take(i as int)),
            dups@.len() <= i,
        decreases n - i,
    {
        assert(xs.take(i + 1).drop_last() =~= xs.take(i as int));
        assert(xs.take(i + 1).last() == entry_view(paths@[i as int]));
        let before = count_key(paths, &keys, i, &keys[i]);
        if before == 1 {
            let ghost old_d = dups.deep_view();
            dups.push(paths[i].path.clone());
            assert(dups.deep_view() =~= old_d.push(paths@[i as int].path@));
        }
        i += 1;
    }
    assert(xs.take(n as int) =~= xs);
    let mut conflicts: Vec<PathConflict> = Vec::new();
    if dups.len() > 0 {
        let mut m: Vec<char> = Vec::new();
        push_str(&mut m, "检测到 ");
        let d = decimal_chars(dups.len() as u64);
        push_all(&mut m, &d);
        push_str(&mut m, " 条重复路径");
        conflicts.push(PathConflict {
            kind: String::from_str("duplicate"),
            tool: None,
            paths: dups.clone(),
            message: from_chars(&m),
        });
    }
    // 2. Missing paths.
    let mut missing: Vec<String> = Vec::new();
    let mut i: usize = 0;
    assert(missing.deep_view() =~= Seq::<Seq<char>>::empty());
    while i < n
        invariant
            i <= n == paths@.len(),
            xs == entry_views(paths@),
            missing.deep_view() == missing_paths(xs.take(i as int)),
            missing@.len() <= i,
        decreases n - i,
    {
        assert(xs.take(i + 1).drop_last() =~= xs.take(i as int));
        assert(xs.take(i + 1).last() == entry_view(paths@[i as int]));
        if !paths[i].exists {
            let ghost old_m = missing.deep_view();
            missing.push(paths[i].path.clone());
            assert(missing.deep_view() =~= old_m.push(paths@[i as int].path@));
        }
        i += 1;
    }
    if missing.len() > 0 {
        let mut m: Vec<char> = Vec::new();
        push_str(&mut m, "检测到 ");
        let d = decimal_chars(missing.len() as u64);
        push_all(&mut m, &d);
        push_str(&mut m, " 条不存在的路径");
        conflicts.push(PathConflict {
            kind: String::from_str("missing"),
            tool: None,
            paths: missing.clone(),
            message: from_chars(&m),
        });
    }
    let ghost head = conflict_views(conflicts@);
    assert(head =~= ({
        let d = duplicate_paths(xs);
        let m = missing_paths(xs);
        let dup: Seq<ConflictView> = if d.len() > 0 {
            seq![("duplicate"@, None, d, "检测到 "@ + decimal(d.len()) + " 条重复路径"@)]
        } else {
            seq![]
        };
        let mis: Seq<ConflictView> = if m.len() > 0 {
            seq![("missing"@, None, m, "检测到 "@ + decimal(m.len()) + " 条不存在的路径"@)]
        } else {
            seq![]
        };
        dup + mis
    }));
    // 3. Tool groups.
    let groups = group_by_tool(paths);
    let mut g: usize = 0;
    let ghost gs = group_views(groups@);
    assert(gs.take(0) =~= Seq::<(Seq<char>, Seq<Seq<char>>)>::empty());
    while g < groups.len()
        invariant
            g <= groups.len(),
            gs == group_views(groups@),
            gs == tool_groups(xs),
            conflict_views(conflicts@) == head + multi_version_conflicts(gs.take(g as int)),
        decreases groups.len() - g,
    {
        assert(gs.take(g + 1).drop_last() =~= gs.take(g as int));
        assert(gs.take(g + 1).last() == gs[g as int]);
        let (tool, list) = (&groups[g].0, &groups[g].1);
        if list.len() >= 2 {
            let mut m: Vec<char> = Vec::new();
            push_str(&mut m, "检测到 ");
            let d = decimal_chars(list.len() as u64);
            push_all(&mut m, &d);
            push_str(&mut m, " 个 ");
            push_str(&mut m, tool.as_str());
            push_str(&mut m, " 路径：");
            let mut parts: Vec<Vec<char>> = Vec::new();
            let mut k: usize = 0;
            while k < list.len()
                invariant
                    k <= list.len(),
                    parts@.len() == k,
                    forall|q: int| 0 <= q < k ==> (#[trigger] parts@[q])@ == list@[q]@,
                decreases list.len() - k,
            {
                parts.push(to_chars(list[k].as_str()));
                k += 1;
            }
            let sep = to_chars("；");
            let joined = crate::text::join_chars(&parts, &sep);
            assert(vviews(parts@) =~= list.deep_view());
            push_all(&mut m, &joined);
            let ghost before = conflict_views(conflicts@);
            conflicts.push(PathConflict {
                kind: String::from_str("multi_version"),
                tool: Some(tool.clone()),
                paths: list.clone(),
                message: from_chars(&m),
            });
            assert(conflict_views(conflicts@) =~= before.push(conflict_view(conflicts@.last())));
        }
        g += 1;
    }
    assert(gs.take(groups.len() as int) =~= gs);
    conflicts
}

/// The views of the groups built by `group_by_tool`.
pub open spec fn group_views(gs: Seq<(String, Vec<String>)>) -> Seq<(Seq<char>, Seq<Seq<char>>)> {
    Seq::new(gs.len(), |i: int| (gs[i].0@, gs[i].1.deep_view()))
}

/// Groups the entries' paths by recognised tool, in order of first appearance.
fn group_by_tool(paths: &[EnvPath]) -> (r: Vec<(String, Vec<String>)>)
    ensures
        group_views(r@) == tool_groups(entry_views(paths@)),
{
    let ghost xs = entry_views(paths@);
    let mut groups: Vec<(String, Vec<String>)> = Vec::new();
    let mut i: usize = 0;
    assert(xs.take(0) =~= Seq::<EntryView>::empty());
    assert(group_views(groups@) =~= Seq::<(Seq<char>, Seq<Seq<char>>)>::empty());
    while i < paths.len()
        invariant
            i <= paths@.len(),
            xs == entry_views(paths@),
            group_views(groups@) == tool_groups(xs.take(i as int)),
        decreases paths.len() - i,
    {
        assert(xs.take(i + 1).drop_last() =~= xs.take(i as int));
        assert(xs.take(i + 1).last() == entry_view(paths@[i as int]));
        let ghost gv = group_views(groups@);
        match &paths[i].tool {
            Some(t) => {
                let mut k: usize = 0;
                let mut found: Option<usize> = None;
                while k < groups.len()
                    invariant
                        k <= groups.len(),
                        gv == group_views(groups@),
                        found is None ==> forall|q: int| 0 <= q < k ==> gv[q].0 != t@,
                        found matches Some(f) ==> group_index(gv, t@, 0) == Some(f as nat) && f < groups.len(),
                    decreases groups.len() - k,
                {
                    if found.is_none() && crate::text::str_eq(groups[k].0.as_str(), t.as_str()) {
                        proof {
                            lemma_group_index_at(gv, t@, 0, k as nat);
                        }
                        found = Some(k);
                    }
                    k += 1;
                }
                proof {
                    lemma_group_index(gv, t@, 0);
                }
                match found {
                    Some(f) => {
                        let (name, mut list) = groups.remove(f);
                        let ghost old_list = list.deep_view();
                        list.push(paths[i].path.clone());
                        assert(list.deep_view() =~= old_list.push(paths@[i as int].path@));
                        groups.insert(f, (name, list));
                        assert(group_views(groups@) =~= gv.update(
                            f as int,
                            (t@, gv[f as int].1.push(paths@[i as int].path@)),
                        ));
                    },
                    None => {
                        let mut list: Vec<String> = Vec::new();
                        list.push(paths[i].path.clone());
                        assert(list.deep_view() =~= seq![paths@[i as int].path@]);
                        groups.push((t.clone(), list));
                        assert(group_views(groups@) =~= gv.push((t@, seq![paths@[i as int].path@])));
                    },
                }
            },
            None => {},
        }
        i += 1;
    }
    assert(xs.take(paths.len() as int) =~= xs);
    groups
}

proof fn lemma_group_index_at(gs: Seq<(Seq<char>, Seq<Seq<char>>)>, tool: Seq<char>, k: nat, j: nat)
    requires
        k <= j < gs.len(),
        gs[j as int].0 == tool,
        forall|m: int| k <= m < j ==> gs[m].0 != tool,
    ensures
        group_index(gs, tool, k) == Some(j),
    decreases j - k,
{
    if k < j {
        lemma_group_index_at(gs, tool, k + 1, j);
    }
}

proof fn lemma_group_index(gs: Seq<(Seq<char>, Seq<Seq<char>>)>, tool: Seq<char>, k: nat)
    ensures
        match group_index(gs, tool, k) {
            Some(j) => k <= j < gs.len() && gs[j as int].0 == tool
                && forall|m: int| k <= m < j ==> gs[m].0 != tool,
            None => forall|m: int| k <= m < gs.len() ==> gs[m].0 != tool,
        },
    decreases gs.len() - k,
{
    if k < gs.len() && gs[k as int].0 != tool {
        lemma_group_index(gs, tool, k + 1);
    }
}

/// The tools a `PATH` entry can be tagged with, in the order they are tried.
pub open spec fn tool_names() -> Seq<Seq<char>> {
    seq!["java"@, "python"@, "node"@, "git"@, "mysql"@, "postgresql"@]
}

/// The markers that reveal each tool of [`tool_names`] in a lower-cased entry.
pub open spec fn tool_markers() -> Seq<Seq<Seq<char>>> {
    seq![
        seq!["\\java"@, "\\jdk"@, "/java"@, "/jdk"@],
        seq!["python"@],
        seq!["nodejs"@, "\\node"@, "/node"@],
        seq!["\\git"@, "/git"@],
        seq!["mysql"@],
        seq!["postgresql"@, "\\pg"@],
    ]
}

/// `l` holds one of the markers `ms`.
pub open spec fn has_marker(l: Seq<char>, ms: Seq<Seq<char>>) -> bool {
    exists|i: int| 0 <= i < ms.len() && contains(l, #[trigger] ms[i])
}

proof fn lemma_markers(l: Seq<char>)
    ensures
        has_marker(l, tool_markers()[0]) == (contains(l, "\\java"@) || contains(l, "\\jdk"@) || contains(l, "/java"@) || contains(l, "/jdk"@)),
        has_marker(l, tool_markers()[1]) == contains(l, "python"@),
        has_marker(l, tool_markers()[2]) == (contains(l, "nodejs"@) || contains(l, "\\node"@) || contains(l, "/node"@)),
        has_marker(l, tool_markers()[3]) == (contains(l, "\\git"@) || contains(l, "/git"@)),
        has_marker(l, tool_markers()[4]) == contains(l, "mysql"@),
        has_marker(l, tool_markers()[5]) == (contains(l, "postgresql"@) || contains(l, "\\pg"@)),
{
    let m = tool_markers();
    assert(m[0][0] == "\\java"@ && m[0][1] == "\\jdk"@ && m[0][2] == "/java"@ && m[0][3] == "/jdk"@);
    assert(m[1][0] == "python"@);
    assert(m[2][0] == "nodejs"@ && m[2][1] == "\\node"@ && m[2][2] == "/node"@);
    assert(m[3][0] == "\\git"@ && m[3][1] == "/git"@);
    assert(m[4][0] == "mysql"@);
    assert(m[5][0] == "postgresql"@ && m[5][1] == "\\pg"@);
}

/// How a `PATH` entry is tagged, judged on its ASCII-lower-cased text: an entry
/// under `node_modules` gets no tool; otherwise an entry holding a marker of a
/// tool, and no marker of a tool tried before it, is tagged with that tool
/// (so `...\PostgreSQL\16\bin` is tagged `postgresql`); and a tag is only ever
/// given to an entry holding one of that tool's markers.
pub proof fn law_path_entry_tags(path: Seq<char>)
    ensures
        contains(ascii_lower(path), "node_modules"@) ==> tool_of(path) is None,
        forall|k: int|
            0 <= k < 6 && !contains(ascii_lower(path), "node_modules"@) && has_marker(
                ascii_lower(path),
                #[trigger] tool_markers()[k],
            ) && (forall|j: int| 0 <= j < k ==> !has_marker(ascii_lower(path), tool_markers()[j]))
                ==> tool_of(path) == Some(tool_names()[k]),
        tool_of(path) matches Some(t) ==> exists|k: int|
            0 <= k < 6 && tool_names()[k] == t && has_marker(ascii_lower(path), #[trigger] tool_markers()[k]),
{
    let l = ascii_lower(path);
    lemma_markers(l);
    reveal_strlit("java");
    reveal_strlit("python");
    reveal_strlit("node");
    reveal_strlit("git");
    reveal_strlit("mysql");
    reveal_strlit("postgresql");
    let n = tool_names();
    assert(n[0] == "java"@ && n[1] == "python"@ && n[2] == "node"@ && n[3] == "git"@ && n[4] == "mysql"@
        && n[5] == "postgresql"@);
    assert forall|k: int|
        0 <= k < 6 && !contains(l, "node_modules"@) && has_marker(l, #[trigger] tool_markers()[k]) && (forall|j: int|
            0 <= j < k ==> !has_marker(l, tool_markers()[j])) implies tool_of(path) == Some(tool_names()[k]) by {
        if k >= 1 {
            assert(!has_marker(l, tool_markers()[0]));
        }
        if k >= 2 {
            assert(!has_marker(l, tool_markers()[1]));
        }
        if k >= 3 {
            assert(!has_marker(l, tool_markers()[2]));
        }
        if k >= 4 {
            assert(!has_marker(l, tool_markers()[3]));
        }
        if k >= 5 {
            assert(!has_marker(l, tool_markers()[4]));
        }
    }
    if let Some(t) = tool_of(path) {
        if t == n[0] {
            assert(n[0][0] != n[2][0]);
            assert(has_marker(l, tool_markers()[0]));
        } else if t == n[1] {
            assert(has_marker(l, tool_markers()[1]));
        } else if t == n[2] {
            assert(has_marker(l, tool_markers()[2]));
        } else if t == n[3] {
            assert(has_marker(l, tool_markers()[3]));
        } else if t == n[4] {
            assert(has_marker(l, tool_markers()[4]));
        } else {
            assert(has_marker(l, tool_markers()[5]));
        }
    }
}

} // verus!
