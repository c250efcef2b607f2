use vstd::prelude::*;

use crate::paths::{join, join_path};
use crate::text::{chars_of, decimal, decimal_chars, lemma_decimal_injective, push_all, string_from_chars};

verus! {

/// ASCII letters and digits (`char::is_ascii_alphanumeric`).
pub open spec fn is_ascii_alnum(c: char) -> bool {
    ('0' <= c && c <= '9') || ('a' <= c && c <= 'z') || ('A' <= c && c <= 'Z')
}

/// `char::to_ascii_lowercase`.
pub open spec fn ascii_lower(c: char) -> char {
    if 'A' <= c && c <= 'Z' {
        ((c as u32) + 32) as char
    } else {
        c
    }
}

/// What one character of a name becomes in its slug: accented Latin vowels, `ç` and
/// `ñ` lose their accent, ASCII letters and digits are lower-cased, anything else is
/// a separator `-`.
pub open spec fn slug_char(c: char) -> char {
    if c == 'à' || c == 'á' || c == 'â' || c == 'ã' || c == 'ä' || c == 'å' || c == 'À' || c == 'Á'
        || c == 'Â' || c == 'Ã' || c == 'Ä' || c == 'Å' {
        'a'
    } else if c == 'è' || c == 'é' || c == 'ê' || c == 'ë' || c == 'È' || c == 'É' || c == 'Ê'
        || c == 'Ë' {
        'e'
    } else if c == 'ì' || c == 'í' || c == 'î' || c == 'ï' || c == 'Ì' || c == 'Í' || c == 'Î'
        || c == 'Ï' {
        'i'
    } else if c == 'ò' || c == 'ó' || c == 'ô' || c == 'õ' || c == 'ö' || c == 'Ò' || c == 'Ó'
        || c == 'Ô' || c == 'Õ' || c == 'Ö' {
        'o'
    } else if c == 'ù' || c == 'ú' || c == 'û' || c == 'ü' || c == 'Ù' || c == 'Ú' || c == 'Û'
        || c == 'Ü' {
        'u'
    } else if c == 'ç' || c == 'Ç' {
        'c'
    } else if c == 'ñ' || c == 'Ñ' {
        'n'
    } else if is_ascii_alnum(c) {
        ascii_lower(c)
    } else {
        '-'
    }
}

/// The characters a slug is made of: lower-case ASCII letters, digits and `-`.
pub open spec fn is_slug_alphabet(c: char) -> bool {
    ('a' <= c && c <= 'z') || ('0' <= c && c <= '9') || c == '-'
}

/// `m` with every run of separators `-` reduced to one, and with no separator
/// before the first other character.
pub open spec fn collapse_separators(m: Seq<char>) -> Seq<char>
    decreases m.len(),
{
    if m.len() == 0 {
        Seq::empty()
    } else {
        let p = collapse_separators(m.drop_last());
        if m.last() != '-' {
            p.push(m.last())
        } else if p.len() > 0 && p.last() != '-' {
            p.push('-')
        } else {
            p
        }
    }
}

/// The fallback slug of a name without letters or digits.
pub open spec fn default_slug() -> Seq<char> {
    seq!['s', 'k', 'i', 'l', 'l']
}

/// The slug of `s`: its characters mapped by `slug_char`, separator runs collapsed,
/// separators at both ends removed; `skill` when nothing is left.
pub open spec fn spec_slugify(s: Seq<char>) -> Seq<char> {
    let c = collapse_separators(s.map_values(|ch: char| slug_char(ch)));
    let t = if c.len() > 0 && c.last() == '-' {
        c.drop_last()
    } else {
        c
    };
    if t.len() == 0 {
        default_slug()
    } else {
        t
    }
}

/// A well-formed slug: non-empty, made of the slug alphabet, with no `-` at either
/// end and never two in a row.
pub open spec fn is_well_formed_slug(s: Seq<char>) -> bool {
    &&& s.len() > 0
    &&& forall|i: int| 0 <= i < s.len() ==> is_slug_alphabet(#[trigger] s[i])
    &&& s[0] != '-'
    &&& s.last() != '-'
    &&& forall|i: int| 0 <= i < s.len() - 1 ==> !(#[trigger] s[i] == '-' && s[i + 1] == '-')
}

/// A slug that cannot name anything but a direct child directory: non-empty, not
/// `.` or `..`, and without `/` or `\`.
pub open spec fn spec_is_safe_slug(s: Seq<char>) -> bool {
    &&& s.len() > 0
    &&& s != seq!['.']
    &&& s != seq!['.', '.']
    &&& !s.contains('/')
    &&& !s.contains('\\')
}

fn slug_char_of(c: char) -> (r: char)
    ensures
        r == slug_char(c),
{
    if c == 'à' || c == 'á' || c == 'â' || c == 'ã' || c == 'ä' || c == 'å' || c == 'À' || c == 'Á'
        || c == 'Â' || c == 'Ã' || c == 'Ä' || c == 'Å' {
        'a'
    } else if c == 'è' || c == 'é' || c == 'ê' || c == 'ë' || c == 'È' || c == 'É' || c == 'Ê'
        || c == 'Ë' {
        'e'
    } else if c == 'ì' || c == 'í' || c == 'î' || c == 'ï' || c == 'Ì' || c == 'Í' || c == 'Î'
        || c == 'Ï' {
        'i'
    } else if c == 'ò' || c == 'ó' || c == 'ô' || c == 'õ' || c == 'ö' || c == 'Ò' || c == 'Ó'
        || c == 'Ô' || c == 'Õ' || c == 'Ö' {
        'o'
    } else if c == 'ù' || c == 'ú' || c == 'û' || c == 'ü' || c == 'Ù' || c == 'Ú' || c == 'Û'
        || c == 'Ü' {
        'u'
    } else if c == 'ç' || c == 'Ç' {
        'c'
    } else if c == 'ñ' || c == 'Ñ' {
        'n'
    } else if ('0' <= c && c <= '9') || ('a' <= c && c <= 'z') {
        c
    } else if 'A' <= c && c <= 'Z' {
        ((c as u8) + 32) as char
    } else {
        '-'
    }
}

/// Turns a display name into a directory slug (see `spec_slugify`).
pub fn slugify(input: &str) -> (r: String)
    ensures
        r@ == spec_slugify(input@),
{
    let cs = chars_of(input);
    let ghost m = cs@.map_values(|ch: char| slug_char(ch));
    let mut out: Vec<char> = Vec::new();
    let mut prev_dash = false;
    let mut i: usize = 0;
    while i < cs.len()
        invariant
            i <= cs.len(),
            m == cs@.map_values(|ch: char| slug_char(ch)),
            out@ == collapse_separators(m.take(i as int)),
            prev_dash == (out@.len() > 0 && out@.last() == '-'),
        decreases cs.len() - i,
    {
        let mapped = slug_char_of(cs[i]);
        assert(m.take(i + 1).drop_last() =~= m.take(i as int));
        assert(m.take(i + 1).last() == mapped);
        if mapped == '-' {
            if !prev_dash && out.len() > 0 {
                out.push('-');
                prev_dash = true;
            }
        } else {
            out.push(mapped);
            prev_dash = false;
        }
        i = i + 1;
    }
    assert(m.take(cs.len() as int) =~= m);
    if out.len() > 0 && out[out.len() - 1] == '-' {
        out.pop();
    }
    if out.len() == 0 {
        let fallback: Vec<char> = vec!['s', 'k', 'i', 'l', 'l'];
        assert(fallback@ =~= default_slug());
        string_from_chars(fallback.as_slice())
    } else {
        string_from_chars(out.as_slice())
    }
}

/// Whether `slug` can be used as the name of a directory under a skills root.
pub fn is_safe_slug(slug: &str) -> (r: bool)
    ensures
        r == spec_is_safe_slug(slug@),
{
    let cs = chars_of(slug);
    if cs.len() == 0 {
        return false;
    }
    if cs.len() == 1 && cs[0] == '.' {
        assert(cs@ =~= seq!['.']);
        return false;
    }
    if cs.len() == 2 && cs[0] == '.' && cs[1] == '.' {
        assert(cs@ =~= seq!['.', '.']);
        return false;
    }
    assert(cs@ != seq!['.']) by {
        if cs@ == seq!['.'] {
            assert(cs@[0] == '.');
        }
    }
    assert(cs@ != seq!['.', '.']) by {
        if cs@ == seq!['.', '.'] {
            assert(cs@[0] == '.' && cs@[1] == '.');
        }
    }
    let mut i: usize = 0;
    while i < cs.len()
        invariant
            i <= cs.len(),
            cs@ == slug@,
            cs@.len() > 0,
            cs@ != seq!['.'],
            cs@ != seq!['.', '.'],
            forall|k: int| 0 <= k < i ==> cs@[k] != '/' && cs@[k] != '\\',
        decreases cs.len() - i,
    {
        if cs[i] == '/' {
            assert(cs@[i as int] == '/');
            assert(cs@.contains('/'));
            return false;
        }
        if cs[i] == '\\' {
            assert(cs@[i as int] == '\\');
            assert(cs@.contains('\\'));
            return false;
        }
        i = i + 1;
    }
    true
}

proof fn lemma_slug_char_alphabet(c: char)
    ensures
        is_slug_alphabet(slug_char(c)),
        is_slug_alphabet(c) ==> slug_char(c) == c,
{
}

/// No separator first, and never two separators in a row.
pub open spec fn separators_collapsed(s: Seq<char>) -> bool {
    &&& (s.len() > 0 ==> s[0] != '-')
    &&& forall|i: int| 0 <= i < s.len() - 1 ==> !(#[trigger] s[i] == '-' && s[i + 1] == '-')
}

proof fn lemma_collapse_shape(m: Seq<char>)
    ensures
        separators_collapsed(collapse_separators(m)),
        (forall|i: int| 0 <= i < m.len() ==> is_slug_alphabet(#[trigger] m[i])) ==> (forall|i: int|
            0 <= i < collapse_separators(m).len() ==> is_slug_alphabet(
                #[trigger] collapse_separators(m)[i],
            )),
    decreases m.len(),
{
    if m.len() > 0 {
        let p = collapse_separators(m.drop_last());
        lemma_collapse_shape(m.drop_last());
        let c = collapse_separators(m);
        if m.last() != '-' || (p.len() > 0 && p.last() != '-') {
            assert(c.drop_last() == p);
            assert forall|i: int| 0 <= i < c.len() - 1 implies !(#[trigger] c[i] == '-' && c[i + 1] == '-') by {
                if i < p.len() - 1 {
                    assert(c[i] == p[i] && c[i + 1] == p[i + 1]);
                }
            }
            if forall|i: int| 0 <= i < m.len() ==> is_slug_alphabet(#[trigger] m[i]) {
                assert(is_slug_alphabet(m[m.len() - 1]));
                assert forall|i: int| 0 <= i < m.drop_last().len() implies is_slug_alphabet(#[trigger] m.drop_last()[i]) by {
                    assert(m.drop_last()[i] == m[i]);
                }
                assert forall|i: int| 0 <= i < c.len() implies is_slug_alphabet(#[trigger] c[i]) by {
                    if i < p.len() {
                        assert(c[i] == p[i]);
                    }
                }
            }
        } else {
            if forall|i: int| 0 <= i < m.len() ==> is_slug_alphabet(#[trigger] m[i]) {
                assert forall|i: int| 0 <= i < m.drop_last().len() implies is_slug_alphabet(#[trigger] m.drop_last()[i]) by {
                    assert(m.drop_last()[i] == m[i]);
                }
            }
        }
    }
}

proof fn lemma_collapse_identity(s: Seq<char>)
    requires
        separators_collapsed(s),
    ensures
        collapse_separators(s) == s,
    decreases s.len(),
{
    if s.len() > 0 {
        let d = s.drop_last();
        assert forall|i: int| 0 <= i < d.len() - 1 implies !(#[trigger] d[i] == '-' && d[i + 1] == '-') by {
            assert(d[i] == s[i] && d[i + 1] == s[i + 1]);
        }
        if d.len() > 0 {
            assert(d[0] == s[0]);
        }
        lemma_collapse_identity(d);
        if s.last() == '-' {
            assert(s.len() >= 2);
            assert(!(s[s.len() - 2] == '-' && s[s.len() - 1] == '-'));
            assert(d.last() == s[s.len() - 2]);
        }
        assert(d.push(s.last()) =~= s);
    }
}

/// A slug is always well formed: non-empty, lower-case letters, digits and single
/// inner dashes only.
pub proof fn slugify_is_well_formed(s: Seq<char>)
    ensures
        is_well_formed_slug(spec_slugify(s)),
{
    let m = s.map_values(|ch: char| slug_char(ch));
    assert forall|i: int| 0 <= i < m.len() implies is_slug_alphabet(#[trigger] m[i]) by {
        lemma_slug_char_alphabet(s[i]);
    }
    lemma_collapse_shape(m);
    let c = collapse_separators(m);
    let t = if c.len() > 0 && c.last() == '-' {
        c.drop_last()
    } else {
        c
    };
    if t.len() == 0 {
        let d = default_slug();
        assert(forall|i: int| 0 <= i < d.len() ==> is_slug_alphabet(#[trigger] d[i]));
        assert(forall|i: int| 0 <= i < d.len() - 1 ==> !(#[trigger] d[i] == '-' && d[i + 1] == '-'));
    } else {
        assert(forall|i: int| 0 <= i < t.len() ==> t[i] == c[i]);
        if c.last() != '-' {
            assert(t.last() == c.last());
        } else {
            assert(!(c[c.len() - 2] == '-' && c[c.len() - 1] == '-'));
        }
        assert forall|i: int| 0 <= i < t.len() implies is_slug_alphabet(#[trigger] t[i]) by {
            assert(t[i] == c[i]);
        }
        assert forall|i: int| 0 <= i < t.len() - 1 implies !(#[trigger] t[i] == '-' && t[i + 1] == '-') by {
            assert(t[i] == c[i] && t[i + 1] == c[i + 1]);
        }
    }
}

/// A well-formed slug is its own slug.
pub proof fn slugify_keeps_well_formed_slug(w: Seq<char>)
    requires
        is_well_formed_slug(w),
    ensures
        spec_slugify(w) == w,
{
    let m = w.map_values(|ch: char| slug_char(ch));
    assert forall|i: int| 0 <= i < w.len() implies #[trigger] m[i] == w[i] by {
        lemma_slug_char_alphabet(w[i]);
    }
    assert(m =~= w);
    lemma_collapse_identity(w);
}

/// Slugifying twice gives the same slug as slugifying once.
pub proof fn slugify_is_idempotent(s: Seq<char>)
    ensures
        spec_slugify(spec_slugify(s)) == spec_slugify(s),
{
    slugify_is_well_formed(s);
    slugify_keeps_well_formed_slug(spec_slugify(s));
}

/// Every slug is safe to use as a directory name.
pub proof fn slugify_is_safe(s: Seq<char>)
    ensures
        spec_is_safe_slug(spec_slugify(s)),
{
    slugify_is_well_formed(s);
    let r = spec_slugify(s);
    assert(r != seq!['.']) by {
        if r == seq!['.'] {
            assert(is_slug_alphabet(r[0]));
        }
    }
    assert(r != seq!['.', '.']) by {
        if r == seq!['.', '.'] {
            assert(is_slug_alphabet(r[0]));
        }
    }
    assert(!r.contains('/')) by {
        if r.contains('/') {
            let i = choose|i: int| 0 <= i < r.len() && r[i] == '/';
            assert(is_slug_alphabet(r[i]));
        }
    }
    assert(!r.contains('\\')) by {
        if r.contains('\\') {
            let i = choose|i: int| 0 <= i < r.len() && r[i] == '\\';
            assert(is_slug_alphabet(r[i]));
        }
    }
}

/// The names in a directory listing, as character sequences.
pub open spec fn names_of(names: Seq<String>) -> Seq<Seq<char>> {
    names.map_values(|n: String| n@)
}

/// `slug-idx`: the candidate name with number `idx`.
pub open spec fn numbered_name(slug: Seq<char>, idx: nat) -> Seq<char> {
    slug + seq!['-'] + decimal(idx)
}

/// `idx` is the first number from 2 on whose candidate name is not taken.
pub open spec fn is_first_free_index(slug: Seq<char>, taken: Seq<Seq<char>>, idx: nat) -> bool {
    &&& idx >= 2
    &&& !taken.contains(numbered_name(slug, idx))
    &&& forall|j: nat| 2 <= j < idx ==> taken.contains(#[trigger] numbered_name(slug, j))
}

/// The name a new skill directory gets: the slug itself when overwriting or when it
/// is free, else `slug-N` with the least `N >= 2` that is free.
pub open spec fn spec_unique_name(slug: Seq<char>, overwrite: bool, taken: Seq<Seq<char>>) -> Seq<
    char,
> {
    if overwrite || !taken.contains(slug) {
        slug
    } else {
        numbered_name(slug, choose|idx: nat| is_first_free_index(slug, taken, idx))
    }
}

proof fn lemma_numbered_name_injective(slug: Seq<char>, a: nat, b: nat)
    requires
        numbered_name(slug, a) == numbered_name(slug, b),
    ensures
        a == b,
{
    let na = numbered_name(slug, a);
    let k: int = slug.len() as int + 1;
    assert(na.skip(k) =~= decimal(a));
    assert(numbered_name(slug, b).skip(k) =~= decimal(b));
    lemma_decimal_injective(a, b);
}

/// When the candidates `slug-2 ..= slug-idx` are all taken, the listing holds at
/// least `idx - 1` names.
proof fn lemma_taken_candidates_bound(slug: Seq<char>, taken: Seq<Seq<char>>, idx: nat)
    requires
        idx >= 2,
        forall|j: nat| 2 <= j <= idx ==> taken.contains(#[trigger] numbered_name(slug, j)),
    ensures
        idx - 1 <= taken.len(),
{
    let n = (idx - 1) as nat;
    let cands = Seq::new(n, |k: int| numbered_name(slug, (k + 2) as nat));
    assert(cands.no_duplicates()) by {
        assert forall|i: int, j: int| 0 <= i < cands.len() && 0 <= j < cands.len() && i != j implies cands[i] != cands[j] by {
            if cands[i] == cands[j] {
                lemma_numbered_name_injective(slug, (i + 2) as nat, (j + 2) as nat);
            }
        }
    }
    cands.unique_seq_to_set();
    assert(cands.to_set().subset_of(taken.to_set())) by {
        assert forall|x: Seq<char>| cands.to_set().contains(x) implies taken.to_set().contains(x) by {
            let i = choose|i: int| 0 <= i < cands.len() && cands[i] == x;
            assert(taken.contains(numbered_name(slug, (i + 2) as nat)));
        }
    }
    taken.lemma_cardinality_of_set();
    vstd::set_lib::lemma_len_subset(cands.to_set(), taken.to_set());
}

fn contains_name(names: &Vec<String>, name: &String) -> (r: bool)
    ensures
        r == names_of(names@).contains(name@),
{
    let mut i: usize = 0;
    while i < names.len()
        invariant
            i <= names.len(),
            forall|k: int| 0 <= k < i ==> names@[k]@ != name@,
        decreases names.len() - i,
    {
        if names[i] == *name {
            assert(names_of(names@)[i as int] == name@);
            return true;
        }
        i = i + 1;
    }
    assert forall|k: int| 0 <= k < names_of(names@).len() implies names_of(names@)[k] != name@ by {
        assert(names_of(names@)[k] == names@[k]@);
    }
    false
}

fn numbered(slug: &Vec<char>, idx: u128) -> (r: String)
    ensures
        r@ == numbered_name(slug@, idx as nat),
{
    let mut out = slug.clone();
    out.push('-');
    let digits = decimal_chars(idx);
    push_all(&mut out, digits.as_slice());
    string_from_chars(out.as_slice())
}

/// The directory a new skill named `slug` goes to under `skills_root`, given the
/// names already present there (see `spec_unique_name`).
pub fn resolve_unique_skill_dir(
    skills_root: &str,
    slug: &str,
    overwrite: bool,
    existing: &Vec<String>,
) -> (r: String)
    ensures
        r@ == join_path(skills_root@, spec_unique_name(slug@, overwrite, names_of(existing@))),
{
    let ghost taken = names_of(existing@);
    let slug_s = string_from_chars(chars_of(slug).as_slice());
    if overwrite || !contains_name(existing, &slug_s) {
        return join(skills_root, slug);
    }
    let slug_chars = chars_of(slug);
    let mut idx: u128 = 2;
    loop
        invariant
            2 <= idx,
            idx <= existing.len() + 2,
            slug_chars@ == slug@,
            taken == names_of(existing@),
            taken.contains(slug@),
            !overwrite,
            forall|j: nat| 2 <= j < idx ==> taken.contains(#[trigger] numbered_name(slug@, j)),
        decreases existing.len() + 2 - idx,
    {
        let cand = numbered(&slug_chars, idx);
        if !contains_name(existing, &cand) {
            proof {
                assert(is_first_free_index(slug@, taken, idx as nat));
                let k = choose|k: nat| is_first_free_index(slug@, taken, k);
                if k < idx {
                    assert(taken.contains(numbered_name(slug@, k)));
                } else if k > idx {
                    assert(taken.contains(numbered_name(slug@, idx as nat)));
                }
            }
            return join(skills_root, cand.as_str());
        }
        proof {
            lemma_taken_candidates_bound(slug@, taken, idx as nat);
        }
        idx = idx + 1;
    }
}

proof fn find_first_free(slug: Seq<char>, taken: Seq<Seq<char>>, j: nat) -> (k: nat)
    requires
        2 <= j,
        forall|i: nat| 2 <= i < j ==> taken.contains(#[trigger] numbered_name(slug, i)),
    ensures
        is_first_free_index(slug, taken, k),
    decreases taken.len() + 3 - j,
{
    if !taken.contains(numbered_name(slug, j)) {
        j
    } else {
        lemma_taken_candidates_bound(slug, taken, j);
        find_first_free(slug, taken, j + 1)
    }
}

/// Without overwriting, a new skill directory never takes a name already present:
/// the slug when it is free, else the first free `slug-N`.
pub proof fn unique_name_is_free(slug: Seq<char>, taken: Seq<Seq<char>>)
    ensures
        !taken.contains(spec_unique_name(slug, false, taken)),
        !taken.contains(slug) ==> spec_unique_name(slug, false, taken) == slug,
{
    if taken.contains(slug) {
        let k = find_first_free(slug, taken, 2);
        assert(is_first_free_index(slug, taken, k));
    }
}

/// The unaccented form of a Latin letter with a grave, acute, circumflex, tilde,
/// diaeresis or ring accent, or a cedilla, as its lower-case ASCII base letter;
/// any other character as it is.
pub open spec fn strip_accent(c: char) -> char {
    if c == 'á' || c == 'à' || c == 'â' || c == 'ä' || c == 'ã' || c == 'å' {
        'a'
    } else if c == 'Á' || c == 'À' || c == 'Â' || c == 'Ä' || c == 'Ã' || c == 'Å' {
        'a'
    } else if c == 'é' || c == 'è' || c == 'ê' || c == 'ë' || c == 'É' || c == 'È' || c == 'Ê'
        || c == 'Ë' {
        'e'
    } else if c == 'í' || c == 'ì' || c == 'î' || c == 'ï' || c == 'Í' || c == 'Ì' || c == 'Î'
        || c == 'Ï' {
        'i'
    } else if c == 'ó' || c == 'ò' || c == 'ô' || c == 'ö' || c == 'õ' {
        'o'
    } else if c == 'Ó' || c == 'Ò' || c == 'Ô' || c == 'Ö' || c == 'Õ' {
        'o'
    } else if c == 'ú' || c == 'ù' || c == 'û' || c == 'ü' || c == 'Ú' || c == 'Ù' || c == 'Û'
        || c == 'Ü' {
        'u'
    } else if c == 'ç' || c == 'Ç' {
        'c'
    } else if c == 'ñ' || c == 'Ñ' {
        'n'
    } else {
        c
    }
}

/// An accented letter keeps its letter in a slug: it becomes its lower-case ASCII
/// base letter, just as that letter itself does.
pub proof fn accented_letter_keeps_its_base(c: char)
    ensures
        slug_char(c) == slug_char(strip_accent(c)),
        strip_accent(c) != c ==> slug_char(c) == strip_accent(c) && 'a' <= slug_char(c) <= 'z',
{
}

/// Accents do not change a slug: a name has the same slug as the name with its
/// accents stripped.
pub proof fn accents_do_not_change_the_slug(s: Seq<char>)
    ensures
        spec_slugify(s) == spec_slugify(s.map_values(|c: char| strip_accent(c))),
{
    let stripped = s.map_values(|c: char| strip_accent(c));
    assert forall|i: int| 0 <= i < s.len() implies slug_char(s[i]) == slug_char(stripped[i]) by {
        accented_letter_keeps_its_base(s[i]);
    }
    assert(s.map_values(|ch: char| slug_char(ch)) =~= stripped.map_values(|ch: char| slug_char(ch)));
}

} // verus!

