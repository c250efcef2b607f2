use vstd::prelude::*;

use crate::domain::RootsInfo;
use crate::text::{chars_of, push_all, string_from_chars};

verus! {

/// `root` joined with `name` the way `Path::join` does on Unix: an absolute `name`
/// replaces `root`, otherwise a `/` is put between them unless `root` is empty or
/// already ends in one.
pub open spec fn join_path(root: Seq<char>, name: Seq<char>) -> Seq<char> {
    if name.len() > 0 && name[0] == '/' {
        name
    } else if root.len() == 0 || root.last() == '/' {
        root + name
    } else {
        root + seq!['/'] + name
    }
}

/// `root` joined with `name` (see `join_path`).
pub fn join(root: &str, name: &str) -> (r: String)
    ensures
        r@ == join_path(root@, name@),
{
    let rs = chars_of(root);
    let ns = chars_of(name);
    if ns.len() > 0 && ns[0] == '/' {
        return string_from_chars(ns.as_slice());
    }
    let mut out = rs;
    if out.len() > 0 && out[out.len() - 1] != '/' {
        out.push('/');
    }
    push_all(&mut out, ns.as_slice());
    string_from_chars(out.as_slice())
}

/// The base directory: `CODEX_HOME` when it is set, else `.codex` under the home
/// directory, else `.codex` under the current directory.
pub open spec fn spec_base_dir(codex_home: Option<Seq<char>>, home_dir: Option<Seq<char>>) -> Seq<
    char,
> {
    match codex_home {
        Some(h) => h,
        None => join_path(
            match home_dir {
                Some(d) => d,
                None => seq!['.'],
            },
            seq!['.', 'c', 'o', 'd', 'e', 'x'],
        ),
    }
}

/// Picks the base directory from the value of `CODEX_HOME` and the user's home
/// directory, both as read from the environment.
pub fn base_dir_from(codex_home: Option<String>, home_dir: Option<String>) -> (r: String)
    ensures
        r@ == spec_base_dir(
            match codex_home {
                Some(h) => Some(h@),
                None => None,
            },
            match home_dir {
                Some(d) => Some(d@),
                None => None,
            },
        ),
{
    match codex_home {
        Some(h) => h,
        None => {
            let dot: Vec<char> = vec!['.'];
            assert(dot@ =~= seq!['.']);
            let home = match home_dir {
                Some(d) => d,
                None => string_from_chars(dot.as_slice()),
            };
            let name: Vec<char> = vec!['.', 'c', 'o', 'd', 'e', 'x'];
            let name_s = string_from_chars(name.as_slice());
            proof {
                assert(name@ =~= seq!['.', 'c', 'o', 'd', 'e', 'x']);
            }
            join(home.as_str(), name_s.as_str())
        },
    }
}

/// The enabled and disabled skill roots under a base directory.
pub fn resolve_roots(base: &str) -> (r: RootsInfo)
    ensures
        r.base@ == base@,
        r.enabled_root@ == join_path(base@, seq!['s', 'k', 'i', 'l', 'l', 's']),
        r.disabled_root@ == join_path(
            base@,
            seq!['s', 'k', 'i', 'l', 'l', 's', '_', 'd', 'i', 's', 'a', 'b', 'l', 'e', 'd'],
        ),
{
    let enabled: Vec<char> = vec!['s', 'k', 'i', 'l', 'l', 's'];
    let disabled: Vec<char> = vec![
        's',
        'k',
        'i',
        'l',
        'l',
        's',
        '_',
        'd',
        'i',
        's',
        'a',
        'b',
        'l',
        'e',
        'd',
    ];
    let enabled_s = string_from_chars(enabled.as_slice());
    let disabled_s = string_from_chars(disabled.as_slice());
    proof {
        assert(enabled@ =~= seq!['s', 'k', 'i', 'l', 'l', 's']);
        assert(disabled@ =~= seq![
            's',
            'k',
            'i',
            'l',
            'l',
            's',
            '_',
            'd',
            'i',
            's',
            'a',
            'b',
            'l',
            'e',
            'd',
        ]);
    }
    RootsInfo {
        base: string_from_chars(chars_of(base).as_slice()),
        enabled_root: join(base, enabled_s.as_str()),
        disabled_root: join(base, disabled_s.as_str()),
    }
}

/// Index of the last `/` of `p`, if any.
pub open spec fn last_separator(p: Seq<char>) -> Option<int>
    decreases p.len(),
{
    if p.len() == 0 {
        None
    } else if p.last() == '/' {
        Some(p.len() - 1)
    } else {
        last_separator(p.drop_last())
    }
}

pub proof fn lemma_last_separator(p: Seq<char>)
    ensures
        match last_separator(p) {
            Some(k) => 0 <= k < p.len() && p[k] == '/' && forall|j: int| k < j < p.len() ==> p[j] != '/',
            None => forall|j: int| 0 <= j < p.len() ==> p[j] != '/',
        },
    decreases p.len(),
{
    if p.len() > 0 && p.last() != '/' {
        let d = p.drop_last();
        lemma_last_separator(d);
        assert(forall|j: int| 0 <= j < d.len() ==> d[j] == p[j]);
    }
}

/// How much of `p` comes before its components proper (`Components` on Unix): the
/// root `/`, or a leading `.` component; nothing otherwise.
pub open spec fn lead_len(p: Seq<char>) -> nat {
    if p.len() > 0 && p[0] == '/' {
        1
    } else if p.len() > 0 && p[0] == '.' && (p.len() == 1 || p[1] == '/') {
        1
    } else {
        0
    }
}

/// The last `/` of `p` that stands after the first `lb` characters.
pub open spec fn body_sep(p: Seq<char>, lb: nat) -> Option<int> {
    match last_separator(p) {
        Some(k) => if k >= lb {
            Some(k)
        } else {
            None
        },
        None => None,
    }
}

/// The text after the last `/` of `p` (not looking into its first `lb` characters).
pub open spec fn last_segment(p: Seq<char>, lb: nat) -> Seq<char> {
    match body_sep(p, lb) {
        Some(k) => p.skip(k + 1),
        None => p.skip(lb as int),
    }
}

/// `p` without its last segment and the `/` before it.
pub open spec fn before_segment(p: Seq<char>, lb: nat) -> Seq<char> {
    match body_sep(p, lb) {
        Some(k) => p.take(k),
        None => p.take(lb as int),
    }
}

/// Segments that are no components: empty ones (doubled or trailing `/`) and `.`.
pub open spec fn is_skipped(seg: Seq<char>) -> bool {
    seg.len() == 0 || seg == seq!['.']
}

/// The last component of `p` (`Components::next_back`), skipping empty and `.`
/// segments, with what precedes it; no component once only the first `lb`
/// characters remain.
pub open spec fn back_component(p: Seq<char>, lb: nat) -> (Seq<char>, Option<Seq<char>>)
    decreases p.len(),
{
    if p.len() <= lb {
        (p, None)
    } else {
        proof {
            lemma_last_separator(p);
        }
        if is_skipped(last_segment(p, lb)) {
            back_component(before_segment(p, lb), lb)
        } else {
            (before_segment(p, lb), Some(last_segment(p, lb)))
        }
    }
}

/// `p` without its trailing empty and `.` segments (`Components::as_path`).
pub open spec fn trim_back(p: Seq<char>, lb: nat) -> Seq<char>
    decreases p.len(),
{
    if p.len() <= lb {
        p
    } else {
        proof {
            lemma_last_separator(p);
        }
        if is_skipped(last_segment(p, lb)) {
            trim_back(before_segment(p, lb), lb)
        } else {
            p
        }
    }
}

/// The last component of `p` when it is a name (`Path::file_name`): none for the
/// empty path, the root, `.` and `..`.
pub open spec fn spec_file_name(p: Seq<char>) -> Option<Seq<char>> {
    match back_component(p, lead_len(p)).1 {
        Some(n) => if n == seq!['.', '.'] {
            None
        } else {
            Some(n)
        },
        None => None,
    }
}

/// `p` without its last component (`Path::parent`): none for the empty path and
/// the root, empty for a lone name or `.`.
pub open spec fn spec_parent(p: Seq<char>) -> Option<Seq<char>> {
    let (rest, last) = back_component(p, lead_len(p));
    match last {
        Some(_) => Some(trim_back(rest, lead_len(p))),
        None => if p.len() > 0 && p[0] == '.' {
            Some(Seq::empty())
        } else {
            None
        },
    }
}

fn lead_len_of(p: &Vec<char>) -> (r: usize)
    ensures
        r == lead_len(p@),
        r <= p.len(),
{
    if p.len() > 0 && p[0] == '/' {
        1
    } else if p.len() > 0 && p[0] == '.' && (p.len() == 1 || p[1] == '/') {
        1
    } else {
        0
    }
}

/// Splits `p[..end]` at its last segment: where the segment starts, and where the
/// part before it ends.
fn split_last_segment(p: &Vec<char>, lb: usize, end: usize) -> (r: (usize, usize))
    requires
        lb < end <= p.len(),
    ensures
        lb <= r.1 <= r.0 <= end,
        r.1 < end,
        last_segment(p@.take(end as int), lb as nat) == p@.subrange(r.0 as int, end as int),
        before_segment(p@.take(end as int), lb as nat) == p@.take(r.1 as int),
{
    let ghost q = p@.take(end as int);
    let mut i = end;
    while i > lb && p[i - 1] != '/'
        invariant
            lb <= i <= end,
            end <= p.len(),
            forall|j: int| i <= j < end ==> p@[j] != '/',
        decreases i,
    {
        i = i - 1;
    }
    proof {
        lemma_last_separator(q);
    }
    if i > lb {
        let k = i - 1;
        assert(q[k as int] == '/');
        assert(body_sep(q, lb as nat) == Some(k as int)) by {
            match last_separator(q) {
                Some(k2) => {
                    if k2 < k {
                        assert(q[k as int] != '/');
                    } else if k2 > k {
                        assert(q[k2] == p@[k2]);
                    }
                },
                None => {
                    assert(q[k as int] != '/');
                },
            }
        }
        assert(q.skip(k + 1) =~= p@.subrange(i as int, end as int));
        assert(q.take(k as int) =~= p@.take(k as int));
        (i, k)
    } else {
        assert(body_sep(q, lb as nat) is None) by {
            if let Some(k2) = last_separator(q) {
                if k2 >= lb {
                    assert(q[k2] == p@[k2]);
                }
            }
        }
        assert(q.skip(lb as int) =~= p@.subrange(lb as int, end as int));
        assert(q.take(lb as int) =~= p@.take(lb as int));
        (lb, lb)
    }
}

fn segment_skipped(p: &Vec<char>, a: usize, b: usize) -> (r: bool)
    requires
        a <= b <= p.len(),
    ensures
        r == is_skipped(p@.subrange(a as int, b as int)),
{
    if a == b {
        assert(p@.subrange(a as int, b as int).len() == 0);
        true
    } else if b - a == 1 && p[a] == '.' {
        assert(p@.subrange(a as int, b as int) =~= seq!['.']);
        true
    } else {
        assert(p@.subrange(a as int, b as int) != seq!['.']) by {
            let d = seq!['.'];
            assert(d.len() == 1 && d[0] == '.');
            if p@.subrange(a as int, b as int) == d {
                assert(p@.subrange(a as int, b as int)[0] == p@[a as int]);
            }
        }
        false
    }
}

/// `back_component` of `p[..]`: where the part before the component ends, and the
/// component's bounds.
fn back_component_of(p: &Vec<char>, lb: usize) -> (r: (usize, Option<(usize, usize)>))
    requires
        lb <= p.len(),
    ensures
        r.0 <= p.len(),
        back_component(p@, lb as nat).0 == p@.take(r.0 as int),
        match r.1 {
            Some((a, b)) => a <= b <= p.len() && back_component(p@, lb as nat).1 == Some(
                p@.subrange(a as int, b as int),
            ),
            None => back_component(p@, lb as nat).1 is None,
        },
{
    let mut end = p.len();
    assert(p@.take(end as int) =~= p@);
    while end > lb
        invariant
            lb <= end <= p.len(),
            back_component(p@, lb as nat) == back_component(p@.take(end as int), lb as nat),
        decreases end,
    {
        let (a, b) = split_last_segment(p, lb, end);
        assert(p@.take(end as int).take(b as int) =~= p@.take(b as int));
        if segment_skipped(p, a, end) {
            end = b;
        } else {
            return (b, Some((a, end)));
        }
    }
    (end, None)
}

/// `trim_back` of `p[..end]`: where the trimmed part ends.
fn trim_back_of(p: &Vec<char>, lb: usize, end: usize) -> (r: usize)
    requires
        lb <= end <= p.len(),
    ensures
        r <= end,
        trim_back(p@.take(end as int), lb as nat) == p@.take(r as int),
{
    let mut e = end;
    while e > lb
        invariant
            lb <= e <= end,
            end <= p.len(),
            trim_back(p@.take(end as int), lb as nat) == trim_back(p@.take(e as int), lb as nat),
        decreases e,
    {
        let (a, b) = split_last_segment(p, lb, e);
        if segment_skipped(p, a, e) {
            e = b;
        } else {
            return e;
        }
    }
    e
}

/// The last component of a path when it is a name (see `spec_file_name`).
pub fn file_name_of(path: &str) -> (r: Option<String>)
    ensures
        match r {
            Some(n) => spec_file_name(path@) == Some(n@),
            None => spec_file_name(path@) is None,
        },
{
    let p = chars_of(path);
    let lb = lead_len_of(&p);
    let (_, last) = back_component_of(&p, lb);
    match last {
        Some((a, b)) => {
            let n = crate::text::slice_chars(&p, a, b);
            if n.len() == 2 && n[0] == '.' && n[1] == '.' {
                assert(n@ =~= seq!['.', '.']);
                None
            } else {
                assert(n@ != seq!['.', '.']) by {
                    if n@ == seq!['.', '.'] {
                        assert(n@.len() == 2 && n@[0] == '.' && n@[1] == '.');
                    }
                }
                Some(string_from_chars(n.as_slice()))
            }
        },
        None => None,
    }
}

/// The parent of a path (see `spec_parent`).
pub fn parent_of(path: &str) -> (r: Option<String>)
    ensures
        match r {
            Some(n) => spec_parent(path@) == Some(n@),
            None => spec_parent(path@) is None,
        },
{
    let p = chars_of(path);
    let lb = lead_len_of(&p);
    let (rest_end, last) = back_component_of(&p, lb);
    match last {
        Some(_) => {
            let e = if lb <= rest_end {
                trim_back_of(&p, lb, rest_end)
            } else {
                rest_end
            };
            assert(lb > rest_end ==> trim_back(p@.take(rest_end as int), lb as nat) == p@.take(
                rest_end as int,
            ));
            Some(string_from_chars(crate::text::slice_chars(&p, 0, e).as_slice()))
        },
        None => {
            if p.len() > 0 && p[0] == '.' {
                Some(String::new())
            } else {
                None
            }
        },
    }
}

/// Index of the last `.` of `n`, if any.
pub open spec fn last_dot(n: Seq<char>) -> Option<int>
    decreases n.len(),
{
    if n.len() == 0 {
        None
    } else if n.last() == '.' {
        Some(n.len() - 1)
    } else {
        last_dot(n.drop_last())
    }
}

/// The file name of `p` without its extension (`Path::file_stem`): the part before
/// the last dot unless that dot starts the name; `skill` when `p` has no file name.
pub open spec fn spec_file_stem(p: Seq<char>) -> Seq<char> {
    match spec_file_name(p) {
        Some(n) => match last_dot(n) {
            Some(k) => if k > 0 {
                n.take(k)
            } else {
                n
            },
            None => n,
        },
        None => "skill"@,
    }
}

/// The stem of the file name of a path (see `spec_file_stem`).
pub fn file_stem_of(path: &str) -> (r: String)
    ensures
        r@ == spec_file_stem(path@),
{
    match file_name_of(path) {
        None => "skill".to_owned(),
        Some(name) => {
            let n = chars_of(name.as_str());
            let mut i = n.len();
            assert(n@.take(i as int) =~= n@);
            while i > 0 && n[i - 1] != '.'
                invariant
                    i <= n.len(),
                    last_dot(n@) == last_dot(n@.take(i as int)),
                decreases i,
            {
                assert(n@.take(i as int).drop_last() =~= n@.take(i - 1));
                i = i - 1;
            }
            if i == 0 {
                assert(n@.take(0) =~= Seq::<char>::empty());
                name
            } else if i == 1 {
                assert(n@.take(1).last() == n@[0]);
                name
            } else {
                assert(n@.take(i as int).last() == n@[i - 1]);
                string_from_chars(crate::text::slice_chars(&n, 0, i - 1).as_slice())
            }
        },
    }
}

} // verus!
