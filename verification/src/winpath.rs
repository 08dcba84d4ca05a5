//! Windows path syntax, as the detectors and cleaners read it: `\` and `/`
//! separate components, and a drive (`C:`) or a lone separator is a root.
use vstd::prelude::*;
use crate::text::slice;

verus! {

/// A path separator.
pub open spec fn is_sep(c: char) -> bool {
    c == '\\' || c == '/'
}

/// The path without its trailing separators.
pub open spec fn trim_end_seps(s: Seq<char>) -> Seq<char>
    decreases s.len(),
{
    if s.len() > 0 && is_sep(s.last()) {
        trim_end_seps(s.drop_last())
    } else {
        s
    }
}

/// Index of the last separator.
pub open spec fn last_sep(s: Seq<char>) -> Option<nat>
    decreases s.len(),
{
    if s.len() == 0 {
        None
    } else if is_sep(s.last()) {
        Some((s.len() - 1) as nat)
    } else {
        last_sep(s.drop_last())
    }
}

/// The last component (`Path::file_name`): none for an empty path or a bare root.
pub open spec fn file_name(p: Seq<char>) -> Option<Seq<char>> {
    let q = trim_end_seps(p);
    match last_sep(q) {
        Some(k) => Some(q.skip((k + 1) as int)),
        None => if q.len() == 0 || q.last() == ':' {
            None
        } else {
            Some(q)
        },
    }
}

/// The parent directory (`Path::parent`): none for an empty path or a bare root;
/// the root is kept when the parent is the root.
pub open spec fn win_parent(p: Seq<char>) -> Option<Seq<char>> {
    let q = trim_end_seps(p);
    match last_sep(q) {
        Some(k) => {
            let head = trim_end_seps(q.take(k as int));
            if head.len() == 0 || head.last() == ':' {
                Some(head.push(q[k as int]))
            } else {
                Some(head)
            }
        },
        None => if q.len() == 0 || q.last() == ':' {
            None
        } else {
            Some(seq![])
        },
    }
}

proof fn lemma_trim_end_seps(s: Seq<char>)
    ensures
        trim_end_seps(s).len() <= s.len(),
        trim_end_seps(s) == s.take(trim_end_seps(s).len() as int),
        trim_end_seps(s).len() > 0 ==> !is_sep(trim_end_seps(s).last()),
    decreases s.len(),
{
    if s.len() > 0 && is_sep(s.last()) {
        lemma_trim_end_seps(s.drop_last());
        assert(s.drop_last().take(trim_end_seps(s).len() as int) =~= s.take(trim_end_seps(s).len() as int));
    } else {
        assert(s.take(s.len() as int) =~= s);
    }
}

proof fn lemma_last_sep(s: Seq<char>)
    ensures
        match last_sep(s) {
            Some(k) => k < s.len() && is_sep(s[k as int]) && forall|j: int| k < j < s.len() ==> !is_sep(s[j]),
            None => forall|j: int| 0 <= j < s.len() ==> !is_sep(s[j]),
        },
    decreases s.len(),
{
    if s.len() > 0 && !is_sep(s.last()) {
        lemma_last_sep(s.drop_last());
        assert forall|j: int| 0 <= j < s.len() - 1 implies s.drop_last()[j] == s[j] by {}
    }
}

/// The parent is shorter than the path.
pub proof fn lemma_parent_shorter(p: Seq<char>)
    ensures
        win_parent(p) matches Some(pp) ==> pp.len() < p.len(),
{
    let q = trim_end_seps(p);
    lemma_trim_end_seps(p);
    lemma_last_sep(q);
    match last_sep(q) {
        Some(k) => {
            lemma_trim_end_seps(q.take(k as int));
            assert(k + 1 < q.len() || k + 1 == q.len());
            if k + 1 == q.len() {
                assert(is_sep(q.last()));
            }
        },
        None => {},
    }
}

/// `trim_end_seps` on a vector.
pub fn trim_end_seps_chars(s: &Vec<char>) -> (r: Vec<char>)
    ensures
        r@ == trim_end_seps(s@),
{
    let mut i: usize = s.len();
    assert(s@.take(s.len() as int) =~= s@);
    while i > 0 && (s[i - 1] == '\\' || s[i - 1] == '/')
        invariant
            i <= s.len(),
            trim_end_seps(s@) == trim_end_seps(s@.take(i as int)),
        decreases i,
    {
        assert(s@.take(i as int).drop_last() =~= s@.take(i - 1));
        i -= 1;
    }
    slice(s, 0, i)
}

/// `last_sep` on a vector.
pub fn last_sep_index(s: &Vec<char>) -> (r: Option<usize>)
    ensures
        match r {
            Some(k) => last_sep(s@) == Some(k as nat) && k < s@.len(),
            None => last_sep(s@) is None,
        },
{
    let mut i: usize = s.len();
    assert(s@.take(s.len() as int) =~= s@);
    while i > 0
        invariant
            i <= s.len(),
            last_sep(s@) == last_sep(s@.take(i as int)),
        decreases i,
    {
        if s[i - 1] == '\\' || s[i - 1] == '/' {
            return Some(i - 1);
        }
        assert(s@.take(i as int).drop_last() =~= s@.take(i - 1));
        i -= 1;
    }
    None
}

/// The last component of a path (see [`file_name`]).
pub fn file_name_of(p: &Vec<char>) -> (r: Option<Vec<char>>)
    ensures
        match r {
            Some(n) => file_name(p@) == Some(n@),
            None => file_name(p@) is None,
        },
{
    let q = trim_end_seps_chars(p);
    proof {
        lemma_last_sep(q@);
    }
    match last_sep_index(&q) {
        Some(k) => {
            assert(k < q@.len());
            Some(slice(&q, k + 1, q.len()))
        },
        None => {
            if q.len() == 0 || q[q.len() - 1] == ':' {
                None
            } else {
                Some(q)
            }
        },
    }
}

/// The parent of a path (see [`win_parent`]).
pub fn parent_of(p: &Vec<char>) -> (r: Option<Vec<char>>)
    ensures
        match r {
            Some(n) => win_parent(p@) == Some(n@),
            None => win_parent(p@) is None,
        },
{
    let q = trim_end_seps_chars(p);
    proof {
        lemma_last_sep(q@);
    }
    match last_sep_index(&q) {
        Some(k) => {
            let t = slice(&q, 0, k);
            let mut head = trim_end_seps_chars(&t);
            if head.len() == 0 || head[head.len() - 1] == ':' {
                head.push(q[k]);
            }
            Some(head)
        },
        None => {
            if q.len() == 0 || q[q.len() - 1] == ':' {
                None
            } else {
                Some(Vec::new())
            }
        },
    }
}

/// `base` joined with `name` (`Path::join`): a name with a drive replaces the
/// base; a name starting with a separator keeps only the base's drive; otherwise
/// a separator is put between them unless the base is empty, ends with one, or
/// is a bare drive.
pub open spec fn win_join(base: Seq<char>, name: Seq<char>) -> Seq<char> {
    if name.len() >= 2 && name[1] == ':' {
        name
    } else if name.len() > 0 && is_sep(name[0]) {
        if base.len() >= 2 && base[1] == ':' {
            base.take(2) + name
        } else {
            name
        }
    } else if base.len() == 0 || is_sep(base.last()) || (base.len() == 2 && base[1] == ':') {
        base + name
    } else {
        base + "\\"@ + name
    }
}

/// Joins `name` to `base` (see [`win_join`]).
pub fn join_path(base: &Vec<char>, name: &Vec<char>) -> (r: Vec<char>)
    ensures
        r@ == win_join(base@, name@),
{
    if name.len() >= 2 && name[1] == ':' {
        name.clone()
    } else if name.len() > 0 && (name[0] == '\\' || name[0] == '/') {
        if base.len() >= 2 && base[1] == ':' {
            let mut r = slice(base, 0, 2);
            crate::text::push_all(&mut r, name);
            r
        } else {
            name.clone()
        }
    } else if base.len() == 0 || base[base.len() - 1] == '\\' || base[base.len() - 1] == '/' || (
    base.len() == 2 && base[1] == ':') {
        crate::text::concat(base, name)
    } else {
        let mut r = base.clone();
        r.push('\\');
        crate::text::push_all(&mut r, name);
        proof {
            reveal_strlit("\\");
        }
        assert(r@ =~= win_join(base@, name@));
        r
    }
}

/// The text after the last separator (all of it when there is none).
pub open spec fn after_last_sep(s: Seq<char>) -> Seq<char> {
    match last_sep(s) {
        Some(k) => s.skip((k + 1) as int),
        None => s,
    }
}

/// The text after the last separator (see [`after_last_sep`]).
pub fn after_last_sep_chars(s: &Vec<char>) -> (r: Vec<char>)
    ensures
        r@ == after_last_sep(s@),
{
    proof {
        lemma_last_sep(s@);
    }
    match last_sep_index(s) {
        Some(k) => {
            assert(k < s@.len());
            assert(s@.len() == s.len());
            slice(s, k + 1, s.len())
        },
        None => s.clone(),
    }
}

} // verus!
