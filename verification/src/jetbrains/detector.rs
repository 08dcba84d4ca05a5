//! Recognising installed JetBrains products among the uninstall registry entries.
use vstd::prelude::*;
use crate::text::{contains, contains_str, to_chars, from_chars, push_str, str_eq, text_order, lemma_text_order_antisym, lemma_text_order_trans, compare_chars};
use crate::pattern::{unicode_lower, to_lowercase, regex_matches, regex_is_match};
use crate::error::owned;
use crate::types::{JetBrainsInstallation, RegistryUninstallItem};

verus! {

/// The pattern of the display names of JetBrains products.
pub const INSTALLED_PATTERN: &'static str = "IntelliJ IDEA|PyCharm|WebStorm|GoLand|CLion|DataGrip|PhpStorm|RubyMine|RustRover|Rider|AppCode|JetBrains Toolbox";

/// The product code a display name stands for, judged on its lower-cased text;
/// empty when no product is recognised.
pub open spec fn product_code_of(name: Seq<char>) -> Seq<char> {
    let n = unicode_lower(name);
    if contains(n, "intellij idea"@) {
        if contains(n, "community"@) { "IIC"@ } else { "IIU"@ }
    } else if contains(n, "pycharm"@) {
        if contains(n, "community"@) { "PCC"@ } else { "PCP"@ }
    } else if contains(n, "webstorm"@) {
        "WS"@
    } else if contains(n, "goland"@) {
        "GO"@
    } else if contains(n, "clion"@) {
        "CL"@
    } else if contains(n, "datagrip"@) {
        "DG"@
    } else if contains(n, "phpstorm"@) {
        "PS"@
    } else if contains(n, "rubymine"@) {
        "RM"@
    } else if contains(n, "rustrover"@) {
        "RR"@
    } else if contains(n, "rider"@) {
        "RD"@
    } else if contains(n, "appcode"@) {
        "AC"@
    } else if contains(n, "toolbox"@) {
        "TBA"@
    } else {
        seq![]
    }
}

/// The product code of a display name (see [`product_code_of`]).
pub fn infer_product_code(display_name: &str) -> (r: String)
    ensures
        r@ == product_code_of(display_name@),
{
    let lower = to_lowercase(display_name);
    let n = to_chars(lower.as_str());
    if contains_str(&n, "intellij idea") {
        if contains_str(&n, "community") { owned("IIC") } else { owned("IIU") }
    } else if contains_str(&n, "pycharm") {
        if contains_str(&n, "community") { owned("PCC") } else { owned("PCP") }
    } else if contains_str(&n, "webstorm") {
        owned("WS")
    } else if contains_str(&n, "goland") {
        owned("GO")
    } else if contains_str(&n, "clion") {
        owned("CL")
    } else if contains_str(&n, "datagrip") {
        owned("DG")
    } else if contains_str(&n, "phpstorm") {
        owned("PS")
    } else if contains_str(&n, "rubymine") {
        owned("RM")
    } else if contains_str(&n, "rustrover") {
        owned("RR")
    } else if contains_str(&n, "rider") {
        owned("RD")
    } else if contains_str(&n, "appcode") {
        owned("AC")
    } else if contains_str(&n, "toolbox") {
        owned("TBA")
    } else {
        String::new()
    }
}

/// A registry entry is a JetBrains product: its name matches a product, or
/// JetBrains published it.
pub open spec fn is_jetbrains(item: RegistryUninstallItem) -> bool {
    regex_matches(INSTALLED_PATTERN@, item.product_name@) || item.publisher@ == "JetBrains"@
}

/// The key under which entries count as the same installation: name, version, location.
pub open spec fn install_key(item: RegistryUninstallItem) -> Seq<char> {
    item.product_name@ + "|"@ + item.version@ + "|"@ + item.install_location@
}

/// The fields of an installation.
pub type InstallView = (Seq<char>, Seq<char>, Seq<char>, Seq<char>, Seq<char>, Seq<char>, bool, Seq<char>);

pub open spec fn install_view(i: JetBrainsInstallation) -> InstallView {
    (
        i.product_name@,
        i.product_code@,
        i.version@,
        i.install_location@,
        i.uninstall_string@,
        i.quiet_uninstall_string@,
        i.is_toolbox,
        i.publisher@,
    )
}

pub open spec fn install_views(is: Seq<JetBrainsInstallation>) -> Seq<InstallView> {
    Seq::new(is.len(), |k: int| install_view(is[k]))
}

/// The installation a registry entry describes.
pub open spec fn installation_of(item: RegistryUninstallItem) -> InstallView {
    (
        item.product_name@,
        product_code_of(item.product_name@),
        item.version@,
        item.install_location@,
        item.uninstall_string@,
        item.quiet_uninstall_string@,
        item.is_toolbox,
        item.publisher@,
    )
}

/// The keys of the entries kept, in order.
pub open spec fn kept_keys(items: Seq<RegistryUninstallItem>) -> Seq<Seq<char>>
    decreases items.len(),
{
    if items.len() == 0 {
        seq![]
    } else {
        let prev = kept_keys(items.drop_last());
        let it = items.last();
        if is_jetbrains(it) && !prev.contains(install_key(it)) {
            prev.push(install_key(it))
        } else {
            prev
        }
    }
}

/// The installations kept: JetBrains entries, the first of each key, in order.
pub open spec fn kept_installations(items: Seq<RegistryUninstallItem>) -> Seq<InstallView>
    decreases items.len(),
{
    if items.len() == 0 {
        seq![]
    } else {
        let prev = kept_installations(items.drop_last());
        let it = items.last();
        if is_jetbrains(it) && !kept_keys(items.drop_last()).contains(install_key(it)) {
            prev.push(installation_of(it))
        } else {
            prev
        }
    }
}

fn key_of(item: &RegistryUninstallItem) -> (r: String)
    ensures
        r@ == install_key(*item),
{
    let mut s: Vec<char> = Vec::new();
    push_str(&mut s, item.product_name.as_str());
    push_str(&mut s, "|");
    push_str(&mut s, item.version.as_str());
    push_str(&mut s, "|");
    push_str(&mut s, item.install_location.as_str());
    from_chars(&s)
}

fn seen_before(seen: &Vec<String>, key: &str) -> (r: bool)
    ensures
        r == seen.deep_view().contains(key@),
{
    let mut i: usize = 0;
    while i < seen.len()
        invariant
            i <= seen@.len(),
            forall|k: int| 0 <= k < i ==> (#[trigger] seen@[k])@ != key@,
        decreases seen.len() - i,
    {
        if str_eq(seen[i].as_str(), key) {
            assert(seen.deep_view()[i as int] == key@);
            return true;
        }
        i += 1;
    }
    assert forall|k: int| 0 <= k < seen.deep_view().len() implies seen.deep_view()[k] != key@ by {
        assert(seen.deep_view()[k] == seen@[k]@);
    }
    false
}

/// The JetBrains installations among registry entries: entries whose name
/// matches a product or whose publisher is JetBrains, each name / version /
/// location once (the first entry wins), in registry order.
pub fn collect_installations(items: &Vec<RegistryUninstallItem>) -> (r: Vec<JetBrainsInstallation>)
    ensures
        install_views(r@) == kept_installations(items@),
{
    let mut out: Vec<JetBrainsInstallation> = Vec::new();
    let mut seen: Vec<String> = Vec::new();
    let mut i: usize = 0;
    assert(items@.take(0) =~= Seq::<RegistryUninstallItem>::empty());
    assert(install_views(out@) =~= Seq::<InstallView>::empty());
    assert(seen.deep_view() =~= Seq::<Seq<char>>::empty());
    while i < items.len()
        invariant
            i <= items@.len(),
            install_views(out@) == kept_installations(items@.take(i as int)),
            seen.deep_view() == kept_keys(items@.take(i as int)),
        decreases items.len() - i,
    {
        assert(items@.take(i + 1).drop_last() =~= items@.take(i as int));
        assert(items@.take(i + 1).last() == items@[i as int]);
        let it = &items[i];
        let jb = regex_is_match(INSTALLED_PATTERN, it.product_name.as_str()) || str_eq(it.publisher.as_str(), "JetBrains");
        if jb {
            let key = key_of(it);
            if !seen_before(&seen, key.as_str()) {
                let ghost sb = seen.deep_view();
                seen.push(key);
                assert(seen.deep_view() =~= sb.push(install_key(*it)));
                let ghost ob = install_views(out@);
                out.push(
                    JetBrainsInstallation {
                        product_name: it.product_name.clone(),
                        product_code: infer_product_code(it.product_name.as_str()),
                        version: it.version.clone(),
                        install_location: it.install_location.clone(),
                        uninstall_string: it.uninstall_string.clone(),
                        quiet_uninstall_string: it.quiet_uninstall_string.clone(),
                        is_toolbox: it.is_toolbox,
                        publisher: it.publisher.clone(),
                    },
                );
                assert(install_views(out@) =~= ob.push(installation_of(*it)));
            }
        }
        i += 1;
    }
    assert(items@.take(items@.len() as int) =~= items@);
    out
}

/// Sorted by lower-cased product name, ascending.
pub open spec fn by_name(vs: Seq<InstallView>) -> bool {
    forall|i: int, j: int| 0 <= i < j < vs.len() ==> text_order(unicode_lower(vs[i].0), unicode_lower(vs[j].0)) <= 0
}

/// Installations with the same lower-cased name keep their order: the `j`-th
/// of the output is the `from[j]`-th of the input, and equal names come in
/// input order.
pub open spec fn stable_by_name(input: Seq<InstallView>, output: Seq<InstallView>, from: Seq<int>) -> bool {
    &&& from.len() == output.len()
    &&& forall|j: int| 0 <= j < output.len() ==> 0 <= #[trigger] from[j] < input.len() && output[j] == input[from[j]]
    &&& forall|j: int, k: int|
        0 <= j < k < output.len() && text_order(unicode_lower(output[j].0), unicode_lower(output[k].0)) == 0
            ==> #[trigger] from[j] < #[trigger] from[k]
}

/// Orders installations by lower-cased product name (a stable sort, ascending).
pub fn sort_by_product_name(installs: Vec<JetBrainsInstallation>) -> (r: Vec<JetBrainsInstallation>)
    ensures
        by_name(install_views(r@)),
        install_views(r@).to_multiset() == install_views(installs@).to_multiset(),
        exists|from: Seq<int>| stable_by_name(install_views(installs@), install_views(r@), from),
{
    let ghost input = install_views(installs@);
    let mut out: Vec<JetBrainsInstallation> = Vec::new();
    let mut keys: Vec<Vec<char>> = Vec::new();
    let n = installs.len();
    let mut taken: usize = 0;
    let ghost mut from: Seq<int> = seq![];
    proof {
        assert(install_views(out@) =~= Seq::<InstallView>::empty());
        assert(input.take(0) =~= Seq::<InstallView>::empty());
    }
    while taken < n
        invariant
            n == input.len(),
            n == installs@.len(),
            taken <= n,
            install_views(installs@) == input,
            keys@.len() == out@.len(),
            forall|k: int| 0 <= k < out@.len() ==> (#[trigger] keys@[k])@ == unicode_lower(out@[k].product_name@),
            by_name(install_views(out@)),
            install_views(out@).to_multiset() == input.take(taken as int).to_multiset(),
            stable_by_name(input.take(taken as int), install_views(out@), from),
        decreases n - taken,
    {
        let s = &installs[taken];
        let x = JetBrainsInstallation {
            product_name: s.product_name.clone(),
            product_code: s.product_code.clone(),
            version: s.version.clone(),
            install_location: s.install_location.clone(),
            uninstall_string: s.uninstall_string.clone(),
            quiet_uninstall_string: s.quiet_uninstall_string.clone(),
            is_toolbox: s.is_toolbox,
            publisher: s.publisher.clone(),
        };
        let ghost xv = install_view(x);
        assert(xv == input[taken as int]);
        let lower = to_lowercase(x.product_name.as_str());
        let xk = to_chars(lower.as_str());
        let ghost xkey = unicode_lower(x.product_name@);
        let mut pos: usize = 0;
        while pos < out.len() && compare_chars(&keys[pos], &xk) <= 0
            invariant
                pos <= out@.len(),
                keys@.len() == out@.len(),
                xk@ == xkey,
                forall|k: int| 0 <= k < out@.len() ==> (#[trigger] keys@[k])@ == unicode_lower(out@[k].product_name@),
                forall|k: int| 0 <= k < pos ==> text_order(unicode_lower((#[trigger] out@[k]).product_name@), xkey) <= 0,
            decreases out.len() - pos,
        {
            pos += 1;
        }
        let ghost before = install_views(out@);
        let ghost keys_before = keys@;
        let ghost out_before = out@;
        proof {
            if pos < out@.len() {
                assert(text_order(unicode_lower(out@[pos as int].product_name@), xkey) > 0);
            }
        }
        out.insert(pos, x);
        keys.insert(pos, xk);
        proof {
            let after = install_views(out@);
            assert(after =~= before.insert(pos as int, xv));
            assert forall|k: int| 0 <= k < out@.len() implies (#[trigger] keys@[k])@ == unicode_lower(out@[k].product_name@) by {
                if k < pos {
                    assert(keys@[k] == keys_before[k] && out@[k] == out_before[k]);
                } else if k > pos {
                    assert(keys@[k] == keys_before[k - 1] && out@[k] == out_before[k - 1]);
                }
            }
            assert forall|k: int| pos < k < after.len() implies text_order(xkey, unicode_lower(after[k].0)) < 0 by {
                assert(after[k] == before[k - 1]);
                lemma_text_order_antisym(unicode_lower(before[pos as int].0), xkey);
                lemma_text_order_trans(xkey, unicode_lower(before[pos as int].0), unicode_lower(before[k - 1].0));
            }
            assert forall|i: int, j: int| 0 <= i < j < after.len() implies text_order(
                unicode_lower(after[i].0),
                unicode_lower(after[j].0),
            ) <= 0 by {
                if i < pos && j < pos {
                } else if i < pos && j == pos {
                } else if i < pos && j > pos {
                    assert(after[j] == before[j - 1]);
                } else if i == pos {
                } else {
                    assert(after[i] == before[i - 1] && after[j] == before[j - 1]);
                }
            }
            vstd::seq_lib::to_multiset_insert(before, pos as int, xv);
            assert(input.take(taken + 1) =~= input.take(taken as int).push(xv));
            vstd::seq_lib::to_multiset_build(input.take(taken as int), xv);
            let nfrom = from.insert(pos as int, taken as int);
            let ninput = input.take(taken + 1);
            assert forall|j: int| 0 <= j < after.len() implies 0 <= #[trigger] nfrom[j] < ninput.len() && after[j]
                == ninput[nfrom[j]] by {
                if j < pos {
                    assert(nfrom[j] == from[j] && after[j] == before[j]);
                } else if j > pos {
                    assert(nfrom[j] == from[j - 1] && after[j] == before[j - 1]);
                }
            }
            assert forall|j: int, k: int|
                0 <= j < k < after.len() && text_order(unicode_lower(after[j].0), unicode_lower(after[k].0)) == 0
                    implies #[trigger] nfrom[j] < #[trigger] nfrom[k] by {
                if j < pos && k < pos {
                    assert(after[j] == before[j] && after[k] == before[k]);
                } else if j < pos && k == pos {
                    assert(nfrom[j] == from[j]);
                } else if j < pos && k > pos {
                    assert(after[j] == before[j] && after[k] == before[k - 1]);
                    assert(nfrom[j] == from[j] && nfrom[k] == from[k - 1]);
                } else if j == pos {
                    assert(text_order(xkey, unicode_lower(after[k].0)) < 0);
                } else {
                    assert(after[j] == before[j - 1] && after[k] == before[k - 1]);
                    assert(nfrom[j] == from[j - 1] && nfrom[k] == from[k - 1]);
                }
            }
            from = nfrom;
        }
        taken += 1;
    }
    assert(input.take(n as int) =~= input);
    out
}

/// The product family a product of the offered list belongs to: its name in
/// ASCII lower case, without the edition word (` ultimate`, ` professional`,
/// ` community`).
pub open spec fn product_family(product_name: Seq<char>) -> Seq<char> {
    let l = crate::text::ascii_lower(product_name);
    if crate::text::ends_with(l, " ultimate"@) {
        l.take(l.len() - 9)
    } else if crate::text::ends_with(l, " professional"@) {
        l.take(l.len() - 13)
    } else if crate::text::ends_with(l, " community"@) {
        l.take(l.len() - 10)
    } else {
        l
    }
}

proof fn lemma_not_suffix(s: Seq<char>, p: Seq<char>)
    requires
        s.len() > 0,
        p.len() > 0,
        s.last() != p.last(),
    ensures
        !crate::text::ends_with(s, p),
{
    if crate::text::ends_with(s, p) {
        assert(s.skip(s.len() - p.len())[p.len() - 1] == s.last());
    }
}

/// The families of the offered products, in the order of [`crate::jetbrains::fetcher::products`].
proof fn lemma_product_families()
    ensures
        product_family(crate::jetbrains::fetcher::products()[0].1) == "intellij idea"@,
        product_family(crate::jetbrains::fetcher::products()[1].1) == "intellij idea"@,
        product_family(crate::jetbrains::fetcher::products()[2].1) == "pycharm"@,
        product_family(crate::jetbrains::fetcher::products()[3].1) == "pycharm"@,
        product_family(crate::jetbrains::fetcher::products()[4].1) == "webstorm"@,
        product_family(crate::jetbrains::fetcher::products()[5].1) == "goland"@,
        product_family(crate::jetbrains::fetcher::products()[6].1) == "clion"@,
        product_family(crate::jetbrains::fetcher::products()[7].1) == "datagrip"@,
        product_family(crate::jetbrains::fetcher::products()[8].1) == "phpstorm"@,
        product_family(crate::jetbrains::fetcher::products()[9].1) == "rubymine"@,
        product_family(crate::jetbrains::fetcher::products()[10].1) == "rustrover"@,
        product_family(crate::jetbrains::fetcher::products()[11].1) == "rider"@,
{
    reveal_strlit(" community");
    reveal_strlit(" professional");
    reveal_strlit(" ultimate");
    reveal_strlit("CLion");
    reveal_strlit("DataGrip");
    reveal_strlit("GoLand");
    reveal_strlit("IntelliJ IDEA Community");
    reveal_strlit("IntelliJ IDEA Ultimate");
    reveal_strlit("PhpStorm");
    reveal_strlit("PyCharm Community");
    reveal_strlit("PyCharm Professional");
    reveal_strlit("Rider");
    reveal_strlit("RubyMine");
    reveal_strlit("RustRover");
    reveal_strlit("WebStorm");
    reveal_strlit("clion");
    reveal_strlit("datagrip");
    reveal_strlit("goland");
    reveal_strlit("intellij idea");
    reveal_strlit("intellij idea community");
    reveal_strlit("intellij idea ultimate");
    reveal_strlit("phpstorm");
    reveal_strlit("pycharm");
    reveal_strlit("pycharm community");
    reveal_strlit("pycharm professional");
    reveal_strlit("rider");
    reveal_strlit("rubymine");
    reveal_strlit("rustrover");
    reveal_strlit("webstorm");
    let ps = crate::jetbrains::fetcher::products();
    let l0 = crate::text::ascii_lower(ps[0].1);
    assert(l0 =~= "intellij idea ultimate"@);
    assert(l0.skip(l0.len() - 9) =~= " ultimate"@);
    assert(l0.take(l0.len() - 9) =~= "intellij idea"@);
    let l1 = crate::text::ascii_lower(ps[1].1);
    assert(l1 =~= "intellij idea community"@);
    lemma_not_suffix(l1, " ultimate"@);
    lemma_not_suffix(l1, " professional"@);
    assert(l1.skip(l1.len() - 10) =~= " community"@);
    assert(l1.take(l1.len() - 10) =~= "intellij idea"@);
    let l2 = crate::text::ascii_lower(ps[2].1);
    assert(l2 =~= "pycharm professional"@);
    lemma_not_suffix(l2, " ultimate"@);
    assert(l2.skip(l2.len() - 13) =~= " professional"@);
    assert(l2.take(l2.len() - 13) =~= "pycharm"@);
    let l3 = crate::text::ascii_lower(ps[3].1);
    assert(l3 =~= "pycharm community"@);
    lemma_not_suffix(l3, " ultimate"@);
    lemma_not_suffix(l3, " professional"@);
    assert(l3.skip(l3.len() - 10) =~= " community"@);
    assert(l3.take(l3.len() - 10) =~= "pycharm"@);
    let l4 = crate::text::ascii_lower(ps[4].1);
    assert(l4 =~= "webstorm"@);
    let l5 = crate::text::ascii_lower(ps[5].1);
    assert(l5 =~= "goland"@);
    let l6 = crate::text::ascii_lower(ps[6].1);
    assert(l6 =~= "clion"@);
    let l7 = crate::text::ascii_lower(ps[7].1);
    assert(l7 =~= "datagrip"@);
    let l8 = crate::text::ascii_lower(ps[8].1);
    assert(l8 =~= "phpstorm"@);
    let l9 = crate::text::ascii_lower(ps[9].1);
    assert(l9 =~= "rubymine"@);
    let l10 = crate::text::ascii_lower(ps[10].1);
    assert(l10 =~= "rustrover"@);
    lemma_not_suffix(l10, " ultimate"@);
    let l11 = crate::text::ascii_lower(ps[11].1);
    assert(l11 =~= "rider"@);
}

/// A recognised display name leads to a product that is offered: the code
/// inferred for it is one of the offered products' codes, and that product's
/// family (its name without the edition) occurs in the lower-cased display
/// name, with `community` in the display name for the Community editions and
/// not for the Ultimate and Professional ones; AppCode and the Toolbox, which are not offered, are recognised by
/// their own names; and a display name that holds an offered product's family
/// is always recognised as an offered product.
pub proof fn law_inferred_code_is_offered(display_name: Seq<char>)
    ensures
        product_code_of(display_name) == "AC"@ ==> contains(unicode_lower(display_name), "appcode"@),
        product_code_of(display_name) == "TBA"@ ==> contains(unicode_lower(display_name), "toolbox"@),
        product_code_of(display_name).len() > 0 && product_code_of(display_name) != "AC"@
            && product_code_of(display_name) != "TBA"@ ==> exists|k: int|
            0 <= k < crate::jetbrains::fetcher::products().len()
                && (#[trigger] crate::jetbrains::fetcher::products()[k]).0 == product_code_of(display_name)
                && contains(unicode_lower(display_name), product_family(crate::jetbrains::fetcher::products()[k].1))
                && (crate::text::ends_with(crate::jetbrains::fetcher::products()[k].1, " Community"@)
                    ==> contains(unicode_lower(display_name), "community"@))
                && (crate::text::ends_with(crate::jetbrains::fetcher::products()[k].1, " Ultimate"@)
                    || crate::text::ends_with(crate::jetbrains::fetcher::products()[k].1, " Professional"@)
                    ==> !contains(unicode_lower(display_name), "community"@)),
        (exists|k: int|
            0 <= k < crate::jetbrains::fetcher::products().len() && contains(
                unicode_lower(display_name),
                product_family(#[trigger] crate::jetbrains::fetcher::products()[k].1),
            )) ==> product_code_of(display_name).len() > 0 && product_code_of(display_name) != "AC"@
            && product_code_of(display_name) != "TBA"@,
{
    lemma_product_families();
    let ps = crate::jetbrains::fetcher::products();
    let c = product_code_of(display_name);
    let n = unicode_lower(display_name);
    reveal_strlit("IIU");
    reveal_strlit("IIC");
    reveal_strlit("PCP");
    reveal_strlit("PCC");
    reveal_strlit("WS");
    reveal_strlit("GO");
    reveal_strlit("CL");
    reveal_strlit("DG");
    reveal_strlit("PS");
    reveal_strlit("RM");
    reveal_strlit("RR");
    reveal_strlit("RD");
    reveal_strlit("AC");
    reveal_strlit("TBA");
    reveal_strlit(" Community");
    reveal_strlit(" Ultimate");
    reveal_strlit(" Professional");
    reveal_strlit("IntelliJ IDEA Ultimate");
    reveal_strlit("IntelliJ IDEA Community");
    reveal_strlit("PyCharm Professional");
    reveal_strlit("PyCharm Community");
    reveal_strlit("WebStorm");
    reveal_strlit("GoLand");
    reveal_strlit("CLion");
    reveal_strlit("DataGrip");
    reveal_strlit("PhpStorm");
    reveal_strlit("RubyMine");
    reveal_strlit("RustRover");
    reveal_strlit("Rider");
    lemma_not_suffix(ps[0].1, " Community"@);
    assert(ps[1].1.skip(ps[1].1.len() - 10) =~= " Community"@);
    lemma_not_suffix(ps[2].1, " Community"@);
    assert(ps[3].1.skip(ps[3].1.len() - 10) =~= " Community"@);
    assert(ps[0].1.skip(ps[0].1.len() - 9) =~= " Ultimate"@);
    assert(ps[2].1.skip(ps[2].1.len() - 13) =~= " Professional"@);
    assert(!crate::text::ends_with(ps[1].1, " Ultimate"@) && !crate::text::ends_with(ps[3].1, " Ultimate"@)) by {
        lemma_not_suffix(ps[1].1, " Ultimate"@);
        lemma_not_suffix(ps[3].1, " Ultimate"@);
    }
    assert(!crate::text::ends_with(ps[1].1, " Professional"@) && !crate::text::ends_with(ps[3].1, " Professional"@)) by {
        lemma_not_suffix(ps[1].1, " Professional"@);
        lemma_not_suffix(ps[3].1, " Professional"@);
    }
    lemma_not_suffix(ps[10].1, " Ultimate"@);
    if exists|k: int| 0 <= k < ps.len() && contains(n, product_family(#[trigger] ps[k].1)) {
        let k = choose|k: int| 0 <= k < ps.len() && contains(n, product_family(#[trigger] ps[k].1));
        assert(k == 0 || k == 1 || k == 2 || k == 3 || k == 4 || k == 5 || k == 6 || k == 7 || k == 8 || k == 9
            || k == 10 || k == 11);
        assert(contains(n, "intellij idea"@) || contains(n, "pycharm"@) || contains(n, "webstorm"@) || contains(n, "goland"@) || contains(n, "clion"@) || contains(n, "datagrip"@) || contains(n, "phpstorm"@) || contains(n, "rubymine"@) || contains(n, "rustrover"@) || contains(n, "rider"@));
    }
    assert("AC"@[0] == 'A' && "TBA"@[0] == 'T' && "TBA"@.len() == 3 && "AC"@.len() == 2);
    if contains(n, "intellij idea"@) {
        if contains(n, "community"@) {
            assert(c == "IIC"@ && c[0] != 'A' && c[0] != 'T');
            assert(ps[1].0 == c);
            assert(contains(n, product_family(ps[1].1)));
            assert(crate::text::ends_with(ps[1].1, " Community"@) ==> contains(n, "community"@));
            assert(crate::text::ends_with(ps[1].1, " Ultimate"@) || crate::text::ends_with(ps[1].1, " Professional"@) ==> !contains(n, "community"@));
        } else {
            assert(c == "IIU"@ && c[0] != 'A' && c[0] != 'T');
            assert(ps[0].0 == c);
            assert(contains(n, product_family(ps[0].1)));
            assert(crate::text::ends_with(ps[0].1, " Community"@) ==> contains(n, "community"@));
            assert(crate::text::ends_with(ps[0].1, " Ultimate"@) || crate::text::ends_with(ps[0].1, " Professional"@) ==> !contains(n, "community"@));
        }
    } else if contains(n, "pycharm"@) {
        if contains(n, "community"@) {
            assert(c == "PCC"@ && c[0] != 'A' && c[0] != 'T');
            assert(ps[3].0 == c);
            assert(contains(n, product_family(ps[3].1)));
            assert(crate::text::ends_with(ps[3].1, " Community"@) ==> contains(n, "community"@));
            assert(crate::text::ends_with(ps[3].1, " Ultimate"@) || crate::text::ends_with(ps[3].1, " Professional"@) ==> !contains(n, "community"@));
        } else {
            assert(c == "PCP"@ && c[0] != 'A' && c[0] != 'T');
            assert(ps[2].0 == c);
            assert(contains(n, product_family(ps[2].1)));
            assert(crate::text::ends_with(ps[2].1, " Community"@) ==> contains(n, "community"@));
            assert(crate::text::ends_with(ps[2].1, " Ultimate"@) || crate::text::ends_with(ps[2].1, " Professional"@) ==> !contains(n, "community"@));
        }
    } else if contains(n, "webstorm"@) {
        assert(c == "WS"@ && c[0] != 'A' && c[0] != 'T');
        assert(ps[4].0 == c);
            assert(contains(n, product_family(ps[4].1)));
            assert(crate::text::ends_with(ps[4].1, " Community"@) ==> contains(n, "community"@));
            assert(crate::text::ends_with(ps[4].1, " Ultimate"@) || crate::text::ends_with(ps[4].1, " Professional"@) ==> !contains(n, "community"@));
    } else if contains(n, "goland"@) {
        assert(c == "GO"@ && c[0] != 'A' && c[0] != 'T');
        assert(ps[5].0 == c);
            assert(contains(n, product_family(ps[5].1)));
            assert(crate::text::ends_with(ps[5].1, " Community"@) ==> contains(n, "community"@));
            assert(crate::text::ends_with(ps[5].1, " Ultimate"@) || crate::text::ends_with(ps[5].1, " Professional"@) ==> !contains(n, "community"@));
    } else if contains(n, "clion"@) {
        assert(c == "CL"@ && c[0] != 'A' && c[0] != 'T');
        assert(ps[6].0 == c);
            assert(contains(n, product_family(ps[6].1)));
            assert(crate::text::ends_with(ps[6].1, " Community"@) ==> contains(n, "community"@));
            assert(crate::text::ends_with(ps[6].1, " Ultimate"@) || crate::text::ends_with(ps[6].1, " Professional"@) ==> !contains(n, "community"@));
    } else if contains(n, "datagrip"@) {
        assert(c == "DG"@ && c[0] != 'A' && c[0] != 'T');
        assert(ps[7].0 == c);
            assert(contains(n, product_family(ps[7].1)));
            assert(crate::text::ends_with(ps[7].1, " Community"@) ==> contains(n, "community"@));
            assert(crate::text::ends_with(ps[7].1, " Ultimate"@) || crate::text::ends_with(ps[7].1, " Professional"@) ==> !contains(n, "community"@));
    } else if contains(n, "phpstorm"@) {
        assert(c == "PS"@ && c[0] != 'A' && c[0] != 'T');
        assert(ps[8].0 == c);
            assert(contains(n, product_family(ps[8].1)));
            assert(crate::text::ends_with(ps[8].1, " Community"@) ==> contains(n, "community"@));
            assert(crate::text::ends_with(ps[8].1, " Ultimate"@) || crate::text::ends_with(ps[8].1, " Professional"@) ==> !contains(n, "community"@));
    } else if contains(n, "rubymine"@) {
        assert(c == "RM"@ && c[0] != 'A' && c[0] != 'T');
        assert(ps[9].0 == c);
            assert(contains(n, product_family(ps[9].1)));
            assert(crate::text::ends_with(ps[9].1, " Community"@) ==> contains(n, "community"@));
            assert(crate::text::ends_with(ps[9].1, " Ultimate"@) || crate::text::ends_with(ps[9].1, " Professional"@) ==> !contains(n, "community"@));
    } else if contains(n, "rustrover"@) {
        assert(c == "RR"@ && c[0] != 'A' && c[0] != 'T');
        assert(ps[10].0 == c);
            assert(contains(n, product_family(ps[10].1)));
            assert(crate::text::ends_with(ps[10].1, " Community"@) ==> contains(n, "community"@));
            assert(crate::text::ends_with(ps[10].1, " Ultimate"@) || crate::text::ends_with(ps[10].1, " Professional"@) ==> !contains(n, "community"@));
    } else if contains(n, "rider"@) {
        assert(c == "RD"@ && c[0] != 'A' && c[0] != 'T');
        assert(ps[11].0 == c);
            assert(contains(n, product_family(ps[11].1)));
            assert(crate::text::ends_with(ps[11].1, " Community"@) ==> contains(n, "community"@));
            assert(crate::text::ends_with(ps[11].1, " Ultimate"@) || crate::text::ends_with(ps[11].1, " Professional"@) ==> !contains(n, "community"@));
    }
}

} // verus!
