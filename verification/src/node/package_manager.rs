//! Checks on the `node` executable a package listing runs with.
use vstd::prelude::*;
use crate::text::{
    ends_with, ends_with_str, contains, contains_str, to_chars, from_chars, push_str, push_all, str_eq,
    trim, trim_chars, starts_with, starts_with_str, lines, lines_of, lemma_lines_nonempty, signed_decimal, signed_decimal_chars,
    text_order, lemma_text_order_antisym, lemma_text_order_trans, compare_chars,
};
use crate::pattern::{unicode_lower, to_lowercase};
use crate::error::owned;
use crate::json::{json_members, member_value, string_member, object_members, member, string_member_of, pair_views};
use crate::detector_base::ARCH_UNKNOWN;
use crate::types::{NodePackage, ProcessOutput};

verus! {

/// Why a `node` path is refused, or `None`: it must be `node` or end with
/// `node.exe` (any case), and must not contain `..`.
pub open spec fn node_path_problem(path: Seq<char>) -> Option<Seq<char>> {
    if !ends_with(unicode_lower(path), "node.exe"@) && path != "node"@ {
        Some("路径必须指向 node.exe"@)
    } else if contains(path, ".."@) {
        Some("路径不能包含 .."@)
    } else {
        None
    }
}

/// Checks the path of the `node` executable (see [`node_path_problem`]).
pub fn validate_node_path(path: &str) -> (r: Result<(), String>)
    ensures
        match node_path_problem(path@) {
            None => r is Ok,
            Some(m) => r matches Err(e) && e@ == m,
        },
{
    let lower = to_lowercase(path);
    let l = to_chars(lower.as_str());
    if !ends_with_str(&l, "node.exe") && !str_eq(path, "node") {
        return Err(owned("路径必须指向 node.exe"));
    }
    let p = to_chars(path);
    if contains_str(&p, "..") {
        return Err(owned("路径不能包含 .."));
    }
    Ok(())
}

/// The `node` to run: the given path, else `node` from `PATH`; a refused path
/// is reported as a failed check.
pub fn checked_node_command(node_path: Option<String>) -> (r: Result<String, String>)
    ensures
        ({
            let p = match node_path {
                Some(s) => s@,
                None => "node"@,
            };
            match node_path_problem(p) {
                None => r matches Ok(c) && c@ == p,
                Some(m) => r matches Err(e) && e@ == "Node 路径验证失败: "@ + m,
            }
        }),
{
    let cmd = match node_path {
        Some(s) => s,
        None => owned("node"),
    };
    match validate_node_path(cmd.as_str()) {
        Ok(()) => Ok(cmd),
        Err(e) => {
            let mut m: Vec<char> = Vec::new();
            push_str(&mut m, "Node 路径验证失败: ");
            push_str(&mut m, e.as_str());
            Err(from_chars(&m))
        },
    }
}

/// The version npm lists for a package: the string member `version` of its
/// entry, else [`ARCH_UNKNOWN`].
pub open spec fn listed_version(info: Seq<char>) -> Seq<char> {
    match string_member(info, "version"@) {
        Some(v) => v,
        None => ARCH_UNKNOWN@,
    }
}

/// The `dependencies` object of `npm ls --json` output: its members, or the
/// message the listing fails with.
pub open spec fn npm_dependencies(stdout: Seq<char>) -> Result<Seq<(Seq<char>, Seq<char>)>, Seq<char>> {
    match json_members(stdout) {
        Err(e) => Err("JSON 解析失败: "@ + e),
        Ok(None) => Err("输出缺少 dependencies 字段"@),
        Ok(Some(top)) => match member_value(top, "dependencies"@) {
            Some(d) => match json_members(d) {
                Ok(Some(deps)) => Ok(deps),
                _ => Err("输出缺少 dependencies 字段"@),
            },
            None => Err("输出缺少 dependencies 字段"@),
        },
    }
}

/// Name and version of each listed dependency.
pub open spec fn listed_packages(deps: Seq<(Seq<char>, Seq<char>)>) -> Seq<(Seq<char>, Seq<char>)> {
    Seq::new(deps.len(), |i: int| (deps[i].0, listed_version(deps[i].1)))
}

pub open spec fn package_views(ps: Seq<NodePackage>) -> Seq<(Seq<char>, Seq<char>)> {
    Seq::new(ps.len(), |i: int| (ps[i].name@, ps[i].version@))
}

/// Sorted by lower-cased name, ascending.
pub open spec fn by_lower_name(vs: Seq<(Seq<char>, Seq<char>)>) -> bool {
    forall|i: int, j: int| 0 <= i < j < vs.len() ==> text_order(unicode_lower(vs[i].0), unicode_lower(vs[j].0)) <= 0
}

/// Packages with the same lower-cased name keep their order: the `j`-th of
/// the output is the `from[j]`-th of the input, and equal names come in input
/// order.
pub open spec fn stable_by_lower_name(input: Seq<(Seq<char>, Seq<char>)>, output: Seq<(Seq<char>, Seq<char>)>, from: Seq<int>) -> bool {
    &&& from.len() == output.len()
    &&& forall|j: int| 0 <= j < output.len() ==> 0 <= #[trigger] from[j] < input.len() && output[j] == input[from[j]]
    &&& forall|j: int, k: int|
        0 <= j < k < output.len() && text_order(unicode_lower(output[j].0), unicode_lower(output[k].0)) == 0
            ==> #[trigger] from[j] < #[trigger] from[k]
}

/// Inserts `x` after every package whose lower-cased name is not above its own.
fn insert_by_lower_name(
    out: &mut Vec<NodePackage>,
    keys: &mut Vec<Vec<char>>,
    x: NodePackage,
    Ghost(input): Ghost<Seq<(Seq<char>, Seq<char>)>>,
    Ghost(from): Ghost<Seq<int>>,
) -> (new_from: Ghost<Seq<int>>)
    requires
        by_lower_name(package_views(old(out)@)),
        stable_by_lower_name(input, package_views(old(out)@), from),
        old(keys)@.len() == old(out)@.len(),
        forall|k: int| 0 <= k < old(out)@.len() ==> (#[trigger] old(keys)@[k])@ == unicode_lower(old(out)@[k].name@),
    ensures
        by_lower_name(package_views(final(out)@)),
        final(keys)@.len() == final(out)@.len(),
        forall|k: int| 0 <= k < final(out)@.len() ==> (#[trigger] final(keys)@[k])@ == unicode_lower(final(out)@[k].name@),
        package_views(final(out)@).to_multiset() == package_views(old(out)@).to_multiset().insert((x.name@, x.version@)),
        stable_by_lower_name(input.push((x.name@, x.version@)), package_views(final(out)@), new_from@),
{
    let ghost xv = (x.name@, x.version@);
    let lower = to_lowercase(x.name.as_str());
    let xk = to_chars(lower.as_str());
    let ghost xkey = unicode_lower(x.name@);
    let mut pos: usize = 0;
    while pos < out.len() && compare_chars(&keys[pos], &xk) <= 0
        invariant
            pos <= out@.len(),
            keys@.len() == out@.len(),
            xk@ == xkey,
            forall|k: int| 0 <= k < out@.len() ==> (#[trigger] keys@[k])@ == unicode_lower(out@[k].name@),
            forall|k: int| 0 <= k < pos ==> text_order(unicode_lower((#[trigger] out@[k]).name@), xkey) <= 0,
        decreases out.len() - pos,
    {
        pos += 1;
    }
    let ghost before = package_views(out@);
    let ghost keys_before = keys@;
    let ghost out_before = out@;
    proof {
        if pos < out@.len() {
            assert(text_order(unicode_lower(out@[pos as int].name@), xkey) > 0);
        }
    }
    out.insert(pos, x);
    keys.insert(pos, xk);
    proof {
        let after = package_views(out@);
        assert(after =~= before.insert(pos as int, xv));
        assert forall|k: int| 0 <= k < out@.len() implies (#[trigger] keys@[k])@ == unicode_lower(out@[k].name@) by {
            if k < pos {
                assert(keys@[k] == keys_before[k] && out@[k] == out_before[k]);
            } else if k > pos {
                assert(keys@[k] == keys_before[k - 1] && out@[k] == out_before[k - 1]);
            }
        }
        assert forall|k: int| pos < k < after.len() implies text_order(xkey, unicode_lower(after[k].0)) < 0 by {
            assert(after[k] == before[k - 1]);
            lemma_text_order_antisym(unicode_lower(before[pos as int].0), xkey);
            lemma_text_order_trans(xkey, unicode_lower(before[pos as int].0), unicode_lower(before[k - 1].0));
        }
        assert forall|i: int, j: int| 0 <= i < j < after.len() implies text_order(
            unicode_lower(after[i].0),
            unicode_lower(after[j].0),
        ) <= 0 by {
            if i < pos && j < pos {
            } else if i < pos && j == pos {
            } else if i < pos && j > pos {
                assert(after[j] == before[j - 1]);
            } else if i == pos {
            } else {
                assert(after[i] == before[i - 1] && after[j] == before[j - 1]);
            }
        }
        vstd::seq_lib::to_multiset_insert(before, pos as int, xv);
    }
    let ghost nfrom = from.insert(pos as int, input.len() as int);
    proof {
        let after = package_views(out@);
        let ninput = input.push(xv);
        assert forall|j: int| 0 <= j < after.len() implies 0 <= #[trigger] nfrom[j] < ninput.len() && after[j]
            == ninput[nfrom[j]] by {
            if j < pos {
                assert(nfrom[j] == from[j] && after[j] == before[j]);
            } else if j > pos {
                assert(nfrom[j] == from[j - 1] && after[j] == before[j - 1]);
            }
        }
        assert forall|j: int, k: int|
            0 <= j < k < after.len() && text_order(unicode_lower(after[j].0), unicode_lower(after[k].0)) == 0
                implies #[trigger] nfrom[j] < #[trigger] nfrom[k] by {
            if j < pos && k < pos {
                assert(after[j] == before[j] && after[k] == before[k]);
            } else if j < pos && k == pos {
                assert(nfrom[j] == from[j]);
            } else if j < pos && k > pos {
                assert(after[j] == before[j] && after[k] == before[k - 1]);
                assert(nfrom[j] == from[j] && nfrom[k] == from[k - 1]);
            } else if j == pos {
                assert(text_order(xkey, unicode_lower(after[k].0)) < 0);
            } else {
                assert(after[j] == before[j - 1] && after[k] == before[k - 1]);
                assert(nfrom[j] == from[j - 1] && nfrom[k] == from[k - 1]);
            }
        }
    }
    Ghost(nfrom)
}

/// The global packages in `npm ls -g --depth=0 --json` output (see
/// [`npm_dependencies`] and [`listed_packages`]), ordered by lower-cased name.
pub fn parse_npm_ls_json(stdout: &str) -> (r: Result<Vec<NodePackage>, String>)
    ensures
        match npm_dependencies(stdout@) {
            Err(m) => r matches Err(e) && e@ == m,
            Ok(deps) => r matches Ok(ps) && by_lower_name(package_views(ps@))
                && package_views(ps@).to_multiset() == listed_packages(deps).to_multiset()
                && exists|from: Seq<int>| stable_by_lower_name(listed_packages(deps), package_views(ps@), from),
        },
{
    let missing = "输出缺少 dependencies 字段";
    let top = match object_members(stdout) {
        Err(e) => {
            let mut m: Vec<char> = Vec::new();
            push_str(&mut m, "JSON 解析失败: ");
            push_str(&mut m, e.as_str());
            return Err(from_chars(&m));
        },
        Ok(None) => {
            return Err(owned(missing));
        },
        Ok(Some(t)) => t,
    };
    let deps = match member(&top, "dependencies") {
        Some(d) => match object_members(d.as_str()) {
            Ok(Some(ds)) => ds,
            _ => {
                return Err(owned(missing));
            },
        },
        None => {
            return Err(owned(missing));
        },
    };
    let ghost all = listed_packages(pair_views(deps@));
    let mut out: Vec<NodePackage> = Vec::new();
    let mut keys: Vec<Vec<char>> = Vec::new();
    let mut i: usize = 0;
    let ghost mut from: Seq<int> = seq![];
    proof {
        assert(package_views(out@) =~= Seq::<(Seq<char>, Seq<char>)>::empty());
        assert(all.take(0) =~= Seq::<(Seq<char>, Seq<char>)>::empty());
    }
    while i < deps.len()
        invariant
            i <= deps@.len(),
            all == listed_packages(pair_views(deps@)),
            keys@.len() == out@.len(),
            forall|k: int| 0 <= k < out@.len() ==> (#[trigger] keys@[k])@ == unicode_lower(out@[k].name@),
            by_lower_name(package_views(out@)),
            package_views(out@).to_multiset() == all.take(i as int).to_multiset(),
            stable_by_lower_name(all.take(i as int), package_views(out@), from),
        decreases deps.len() - i,
    {
        let version = match string_member_of(deps[i].1.as_str(), "version") {
            Some(v) => v,
            None => owned(ARCH_UNKNOWN),
        };
        let x = NodePackage { name: deps[i].0.clone(), version };
        assert((x.name@, x.version@) == all[i as int]);
        let Ghost(nf) = insert_by_lower_name(&mut out, &mut keys, x, Ghost(all.take(i as int)), Ghost(from));
        proof {
            from = nf;
            assert(all.take(i + 1) =~= all.take(i as int).push(all[i as int]));
            vstd::seq_lib::to_multiset_build(all.take(i as int), all[i as int]);
        }
        i += 1;
    }
    assert(all.take(deps@.len() as int) =~= all);
    assert(stable_by_lower_name(all, package_views(out@), from));
    Ok(out)
}

/// What listing the global packages comes to, given how `npm ls -g --depth=0
/// --json` ended: its packages when it succeeded (or failed over unmet
/// dependencies but still printed a listing); otherwise the reason.
pub open spec fn npm_listing(result: Result<ProcessOutput, String>) -> Result<Seq<(Seq<char>, Seq<char>)>, Seq<char>> {
    match result {
        Err(e) => Err("无法执行 npm 命令（可能未安装 Node.js 或未加入 PATH）: "@ + e@),
        Ok(o) => if o.exit_code == 0 {
            match npm_dependencies(o.stdout@) {
                Ok(deps) => Ok(listed_packages(deps)),
                Err(m) => Err("npm ls 输出解析失败: "@ + m),
            }
        } else if starts_with(trim(o.stdout@), "{"@) && npm_dependencies(o.stdout@) is Ok {
            Ok(listed_packages(npm_dependencies(o.stdout@)->Ok_0))
        } else if trim(o.stderr@).len() == 0 {
            Err("npm ls 执行失败，退出码: "@ + signed_decimal(o.exit_code as int))
        } else {
            Err("npm ls 执行失败: "@ + lines(trim(o.stderr@))[0])
        },
    }
}

/// The global packages, from how `npm ls` ended (see [`npm_listing`]), ordered
/// by lower-cased name.
pub fn npm_listing_outcome(result: &Result<ProcessOutput, String>) -> (r: Result<Vec<NodePackage>, String>)
    ensures
        match npm_listing(*result) {
            Err(m) => r matches Err(e) && e@ == m,
            Ok(ps) => r matches Ok(v) && by_lower_name(package_views(v@)) && package_views(v@).to_multiset()
                == ps.to_multiset() && exists|from: Seq<int>| stable_by_lower_name(ps, package_views(v@), from),
        },
{
    match result {
        Err(e) => {
            let mut m: Vec<char> = Vec::new();
            push_str(&mut m, "无法执行 npm 命令（可能未安装 Node.js 或未加入 PATH）: ");
            push_str(&mut m, e.as_str());
            Err(from_chars(&m))
        },
        Ok(o) => {
            if o.exit_code == 0 {
                return match parse_npm_ls_json(o.stdout.as_str()) {
                    Ok(p) => Ok(p),
                    Err(e) => {
                        let mut m: Vec<char> = Vec::new();
                        push_str(&mut m, "npm ls 输出解析失败: ");
                        push_str(&mut m, e.as_str());
                        Err(from_chars(&m))
                    },
                };
            }
            let so = trim_chars(&to_chars(o.stdout.as_str()));
            if starts_with_str(&so, "{") {
                match parse_npm_ls_json(o.stdout.as_str()) {
                    Ok(p) => {
                        return Ok(p);
                    },
                    Err(_) => {},
                }
            }
            let se = trim_chars(&to_chars(o.stderr.as_str()));
            let mut m: Vec<char> = Vec::new();
            if se.len() == 0 {
                push_str(&mut m, "npm ls 执行失败，退出码: ");
                let d = signed_decimal_chars(o.exit_code);
                push_all(&mut m, &d);
            } else {
                push_str(&mut m, "npm ls 执行失败: ");
                let ls = lines_of(&se);
                proof {
                    lemma_lines_nonempty(se@);
                }
                push_all(&mut m, &ls[0]);
            }
            Err(from_chars(&m))
        },
    }
}

} // verus!
