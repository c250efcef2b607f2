use vstd::prelude::*;

verus! {

/// The characters of a string slice, in order.
pub fn chars_of(s: &str) -> (v: Vec<char>)
    ensures
        v@ == s@,
{
    let mut v: Vec<char> = Vec::new();
    for c in it: s.chars()
        invariant
            v@ == it.seq().take(it.index() as int),
    {
        v.push(c);
    }
    v
}

/// Collects characters into a `String` (`FromIterator<&char>` for `String`).
/// Trusted: the string holds exactly the given characters, in order.
#[verifier::external_body]
pub fn string_from_chars(v: &[char]) -> (s: String)
    ensures
        s@ == v@,
{
    v.iter().collect()
}

/// Unicode `White_Space`, the set that `char::is_whitespace` and `str::trim` use.
pub open spec fn is_ws(c: char) -> bool {
    ||| ('\u{9}' <= c && c <= '\u{d}')
    ||| c == ' '
    ||| c == '\u{85}'
    ||| c == '\u{a0}'
    ||| c == '\u{1680}'
    ||| ('\u{2000}' <= c && c <= '\u{200a}')
    ||| c == '\u{2028}'
    ||| c == '\u{2029}'
    ||| c == '\u{202f}'
    ||| c == '\u{205f}'
    ||| c == '\u{3000}'
}

pub fn is_whitespace(c: char) -> (b: bool)
    ensures
        b == is_ws(c),
{
    ('\u{9}' <= c && c <= '\u{d}') || c == ' ' || c == '\u{85}' || c == '\u{a0}' || c == '\u{1680}'
        || ('\u{2000}' <= c && c <= '\u{200a}') || c == '\u{2028}' || c == '\u{2029}' || c
        == '\u{202f}' || c == '\u{205f}' || c == '\u{3000}'
}

/// `s` without its leading white space.
pub open spec fn trim_start(s: Seq<char>) -> Seq<char>
    decreases s.len(),
{
    if s.len() > 0 && is_ws(s[0]) {
        trim_start(s.drop_first())
    } else {
        s
    }
}

/// `s` without its trailing white space.
pub open spec fn trim_end(s: Seq<char>) -> Seq<char>
    decreases s.len(),
{
    if s.len() > 0 && is_ws(s.last()) {
        trim_end(s.drop_last())
    } else {
        s
    }
}

/// `s` without leading and trailing white space (`str::trim`).
pub open spec fn trim(s: Seq<char>) -> Seq<char> {
    trim_end(trim_start(s))
}

/// Every character of `s` is white space.
pub open spec fn all_ws(s: Seq<char>) -> bool {
    forall|i: int| 0 <= i < s.len() ==> #[trigger] is_ws(s[i])
}

pub proof fn lemma_trim_start_skip(s: Seq<char>, i: int)
    requires
        0 <= i <= s.len(),
        all_ws(s.take(i)),
    ensures
        trim_start(s) == trim_start(s.skip(i)),
    decreases i,
{
    if i > 0 {
        assert(is_ws(s.take(i)[0]));
        assert(s.drop_first().take(i - 1) =~= s.take(i).drop_first());
        assert forall|k: int| 0 <= k < i - 1 implies #[trigger] is_ws(s.drop_first().take(i - 1)[k]) by {
            assert(s.drop_first().take(i - 1)[k] == s.take(i)[k + 1]);
        }
        lemma_trim_start_skip(s.drop_first(), i - 1);
        assert(s.drop_first().skip(i - 1) =~= s.skip(i));
    } else {
        assert(s.skip(0) =~= s);
    }
}

pub proof fn lemma_trim_end_take(s: Seq<char>, j: int)
    requires
        0 <= j <= s.len(),
        all_ws(s.skip(j)),
    ensures
        trim_end(s) == trim_end(s.take(j)),
    decreases s.len() - j,
{
    if j < s.len() {
        assert(is_ws(s.skip(j)[s.len() - 1 - j]));
        assert(s.drop_last().skip(j) =~= s.skip(j).drop_last());
        assert forall|k: int| 0 <= k < s.len() - 1 - j implies #[trigger] is_ws(s.drop_last().skip(j)[k]) by {
            assert(s.drop_last().skip(j)[k] == s.skip(j)[k]);
        }
        lemma_trim_end_take(s.drop_last(), j);
        assert(s.drop_last().take(j) =~= s.take(j));
    } else {
        assert(s.take(j) =~= s);
    }
}

/// Bounds of the trimmed part of `s`: `trim(s) == s[lo..hi]`.
pub fn trim_bounds(s: &Vec<char>) -> (r: (usize, usize))
    ensures
        r.0 <= r.1 <= s.len(),
        trim(s@) == s@.subrange(r.0 as int, r.1 as int),
        all_ws(s@.take(r.0 as int)),
        all_ws(s@.skip(r.1 as int)),
        r.0 < r.1 ==> !is_ws(s@[r.0 as int]) && !is_ws(s@[r.1 - 1]),
{
    let mut lo: usize = 0;
    while lo < s.len() && is_whitespace(s[lo])
        invariant
            lo <= s.len(),
            all_ws(s@.take(lo as int)),
        decreases s.len() - lo,
    {
        assert(s@.take(lo + 1) =~= s@.take(lo as int).push(s@[lo as int]));
        lo = lo + 1;
    }
    proof {
        lemma_trim_start_skip(s@, lo as int);
        if lo < s.len() {
            assert(s@.skip(lo as int)[0] == s@[lo as int]);
        }
        assert(trim_start(s@.skip(lo as int)) == s@.skip(lo as int));
    }
    let ghost t = s@.skip(lo as int);
    let mut hi: usize = s.len();
    while hi > lo && is_whitespace(s[hi - 1])
        invariant
            lo <= hi <= s.len(),
            all_ws(s@.skip(hi as int)),
        decreases hi,
    {
        assert(s@.skip(hi - 1) =~= seq![s@[hi - 1]] + s@.skip(hi as int));
        hi = hi - 1;
    }
    proof {
        assert(t.skip(hi - lo) =~= s@.skip(hi as int));
        lemma_trim_end_take(t, hi - lo);
        assert(t.take(hi - lo) =~= s@.subrange(lo as int, hi as int));
        let u = s@.subrange(lo as int, hi as int);
        if u.len() > 0 {
            assert(u.last() == s@[hi - 1]);
        }
        assert(trim_end(u) == u);
    }
    (lo, hi)
}

/// `str::trim` on a character vector.
pub fn trimmed(s: &Vec<char>) -> (r: Vec<char>)
    ensures
        r@ == trim(s@),
{
    let (lo, hi) = trim_bounds(s);
    slice_chars(s, lo, hi)
}

/// `s[lo..hi]` as a new vector.
pub fn slice_chars(s: &Vec<char>, lo: usize, hi: usize) -> (r: Vec<char>)
    requires
        lo <= hi <= s.len(),
    ensures
        r@ == s@.subrange(lo as int, hi as int),
{
    let mut r: Vec<char> = Vec::new();
    let mut i = lo;
    while i < hi
        invariant
            lo <= i <= hi <= s.len(),
            r@ == s@.subrange(lo as int, i as int),
        decreases hi - i,
    {
        r.push(s[i]);
        i = i + 1;
    }
    r
}

/// The decimal digit `d` (below ten) as a character.
pub open spec fn digit_char(d: nat) -> char {
    if d == 0 {
        '0'
    } else if d == 1 {
        '1'
    } else if d == 2 {
        '2'
    } else if d == 3 {
        '3'
    } else if d == 4 {
        '4'
    } else if d == 5 {
        '5'
    } else if d == 6 {
        '6'
    } else if d == 7 {
        '7'
    } else if d == 8 {
        '8'
    } else {
        '9'
    }
}

/// The decimal representation of `n`, without leading zeros (`format!("{n}")`).
pub open spec fn decimal(n: nat) -> Seq<char>
    decreases n,
{
    if n < 10 {
        seq![digit_char(n)]
    } else {
        decimal(n / 10).push(digit_char(n % 10))
    }
}

proof fn lemma_digit_injective(x: nat, y: nat)
    requires
        x < 10,
        y < 10,
        digit_char(x) == digit_char(y),
    ensures
        x == y,
{
    assert(('0' as u32) == 48);
    assert(('9' as u32) == 57);
}

pub proof fn lemma_decimal_len(n: nat)
    ensures
        decimal(n).len() >= 1,
        n >= 10 ==> decimal(n).len() >= 2,
    decreases n,
{
    if n >= 10 {
        lemma_decimal_len(n / 10);
    }
}

/// Distinct numbers have distinct decimal representations.
pub proof fn lemma_decimal_injective(a: nat, b: nat)
    requires
        decimal(a) == decimal(b),
    ensures
        a == b,
    decreases a,
{
    lemma_decimal_len(a);
    lemma_decimal_len(b);
    if a < 10 && b < 10 {
        assert(decimal(a) == seq![digit_char(a)]);
        assert(decimal(b) == seq![digit_char(b)]);
        assert(decimal(a)[0] == digit_char(a));
        assert(decimal(b)[0] == digit_char(b));
        lemma_digit_injective(a, b);
    } else if a >= 10 && b >= 10 {
        assert(decimal(a) == decimal(a / 10).push(digit_char(a % 10)));
        assert(decimal(b) == decimal(b / 10).push(digit_char(b % 10)));
        assert(decimal(a).last() == digit_char(a % 10));
        assert(decimal(b).last() == digit_char(b % 10));
        assert(decimal(a).drop_last() =~= decimal(a / 10));
        assert(decimal(b).drop_last() =~= decimal(b / 10));
        lemma_digit_injective(a % 10, b % 10);
        lemma_decimal_injective(a / 10, b / 10);
        assert(a == 10 * (a / 10) + a % 10);
        assert(b == 10 * (b / 10) + b % 10);
    } else {
        lemma_decimal_len(a / 10);
        lemma_decimal_len(b / 10);
    }
}

fn digit(d: u128) -> (c: char)
    requires
        d < 10,
    ensures
        c == digit_char(d as nat),
{
    if d == 0 {
        '0'
    } else if d == 1 {
        '1'
    } else if d == 2 {
        '2'
    } else if d == 3 {
        '3'
    } else if d == 4 {
        '4'
    } else if d == 5 {
        '5'
    } else if d == 6 {
        '6'
    } else if d == 7 {
        '7'
    } else if d == 8 {
        '8'
    } else {
        '9'
    }
}

/// The decimal digits of `n`.
pub fn decimal_chars(n: u128) -> (v: Vec<char>)
    ensures
        v@ == decimal(n as nat),
    decreases n,
{
    if n < 10 {
        let mut v: Vec<char> = Vec::new();
        v.push(digit(n));
        assert(v@ =~= decimal(n as nat));
        v
    } else {
        let mut v = decimal_chars(n / 10);
        v.push(digit(n % 10));
        v
    }
}

/// Appends the characters of `src` to `dst`.
pub fn push_all(dst: &mut Vec<char>, src: &[char])
    ensures
        final(dst)@ == old(dst)@ + src@,
{
    let mut i: usize = 0;
    while i < src.len()
        invariant
            i <= src.len(),
            dst@ == old(dst)@ + src@.take(i as int),
        decreases src.len() - i,
    {
        assert(src@.take(i + 1) =~= src@.take(i as int).push(src@[i as int]));
        dst.push(src[i]);
        i = i + 1;
    }
    assert(src@.take(src.len() as int) =~= src@);
}

/// Number of words of `s`: maximal runs of non-white-space characters
/// (`str::split_whitespace().count()`).
pub open spec fn count_words(s: Seq<char>) -> nat
    decreases s.len(),
{
    if s.len() == 0 {
        0
    } else {
        count_words(s.drop_last()) + if !is_ws(s.last()) && (s.len() == 1 || is_ws(
            s[s.len() - 2],
        )) {
            1nat
        } else {
            0nat
        }
    }
}

pub proof fn lemma_count_words_le_len(s: Seq<char>)
    ensures
        count_words(s) <= s.len(),
    decreases s.len(),
{
    if s.len() > 0 {
        lemma_count_words_le_len(s.drop_last());
    }
}

/// Counts the words of `s` (see `count_words`).
pub fn word_count(s: &Vec<char>) -> (n: usize)
    ensures
        n == count_words(s@),
{
    let mut n: usize = 0;
    let mut i: usize = 0;
    while i < s.len()
        invariant
            i <= s.len(),
            n == count_words(s@.take(i as int)),
            n <= i,
        decreases s.len() - i,
    {
        let ghost t = s@.take(i + 1);
        assert(t.drop_last() =~= s@.take(i as int));
        if !is_whitespace(s[i]) && (i == 0 || is_whitespace(s[i - 1])) {
            n = n + 1;
        }
        i = i + 1;
    }
    assert(s@.take(s.len() as int) =~= s@);
    n
}

/// `parts` joined with `sep` between consecutive parts (`[..].join(sep)`).
pub open spec fn join_seqs(parts: Seq<Seq<char>>, sep: Seq<char>) -> Seq<char>
    decreases parts.len(),
{
    if parts.len() == 0 {
        Seq::empty()
    } else if parts.len() == 1 {
        parts[0]
    } else {
        join_seqs(parts.drop_last(), sep) + sep + parts.last()
    }
}

/// Joins `parts` with `sep` (see `join_seqs`).
pub fn join_chars(parts: &Vec<Vec<char>>, sep: &[char]) -> (r: Vec<char>)
    ensures
        r@ == join_seqs(parts@.map_values(|p: Vec<char>| p@), sep@),
{
    let ghost views = parts@.map_values(|p: Vec<char>| p@);
    let mut r: Vec<char> = Vec::new();
    let mut i: usize = 0;
    while i < parts.len()
        invariant
            i <= parts.len(),
            views == parts@.map_values(|p: Vec<char>| p@),
            r@ == join_seqs(views.take(i as int), sep@),
        decreases parts.len() - i,
    {
        assert(views.take(i + 1).drop_last() =~= views.take(i as int));
        assert(views.take(i + 1).last() == parts@[i as int]@);
        if i > 0 {
            push_all(&mut r, sep);
        } else {
            assert(views.take(i + 1).len() == 1);
            assert(r@ =~= Seq::<char>::empty());
        }
        push_all(&mut r, parts[i].as_slice());
        if i == 0 {
            assert(r@ =~= views.take(1)[0]);
        }
        i = i + 1;
    }
    assert(views.take(parts.len() as int) =~= views);
    r
}

/// `pat` occurs in `s` at index `i`.
pub open spec fn matches_at(s: Seq<char>, pat: Seq<char>, i: int) -> bool {
    0 <= i && i + pat.len() <= s.len() && s.subrange(i, i + pat.len()) == pat
}

/// The pieces of `s[piece_start..]` between the non-overlapping occurrences of
/// `pat`, searching from `i` on, left to right.
pub open spec fn split_scan(s: Seq<char>, pat: Seq<char>, piece_start: int, i: int) -> Seq<
    Seq<char>,
>
    decreases s.len() - i,
{
    if pat.len() == 0 || i < piece_start || piece_start < 0 || i + pat.len() > s.len() {
        seq![s.subrange(piece_start, s.len() as int)]
    } else if matches_at(s, pat, i) {
        seq![s.subrange(piece_start, i)] + split_scan(
            s,
            pat,
            i + pat.len(),
            i + pat.len(),
        )
    } else {
        split_scan(s, pat, piece_start, i + 1)
    }
}

/// The pieces of `s` between the occurrences of `pat` (`str::split`).
pub open spec fn split_seq(s: Seq<char>, pat: Seq<char>) -> Seq<Seq<char>> {
    split_scan(s, pat, 0, 0)
}

fn matches_here(s: &Vec<char>, pat: &[char], i: usize) -> (b: bool)
    requires
        i + pat.len() <= s.len(),
    ensures
        b == matches_at(s@, pat@, i as int),
{
    let mut k: usize = 0;
    while k < pat.len()
        invariant
            k <= pat.len(),
            i + pat.len() <= s.len(),
            forall|j: int| 0 <= j < k ==> s@[i + j] == pat@[j],
        decreases pat.len() - k,
    {
        if s[i + k] != pat[k] {
            assert(s@.subrange(i as int, i + pat.len())[k as int] != pat@[k as int]);
            return false;
        }
        k = k + 1;
    }
    assert(s@.subrange(i as int, i + pat.len()) =~= pat@);
    true
}

/// Splits `s` at the occurrences of `pat` (see `split_seq`).
pub fn split_chars(s: &Vec<char>, pat: &[char]) -> (r: Vec<Vec<char>>)
    requires
        pat.len() > 0,
    ensures
        r@.map_values(|p: Vec<char>| p@) == split_seq(s@, pat@),
{
    let mut r: Vec<Vec<char>> = Vec::new();
    let mut piece_start: usize = 0;
    let mut i: usize = 0;
    while pat.len() <= s.len() - i
        invariant
            pat.len() > 0,
            piece_start <= i <= s.len(),
            r@.map_values(|p: Vec<char>| p@) + split_scan(s@, pat@, piece_start as int, i as int)
                == split_seq(s@, pat@),
        decreases s.len() - i,
    {
        if matches_here(s, pat, i) {
            let piece = slice_chars(s, piece_start, i);
            let ghost before = r@.map_values(|p: Vec<char>| p@);
            r.push(piece);
            assert(r@.map_values(|p: Vec<char>| p@) =~= before.push(piece@));
            i = i + pat.len();
            piece_start = i;
        } else {
            i = i + 1;
        }
    }
    let last = slice_chars(s, piece_start, s.len());
    let ghost before = r@.map_values(|p: Vec<char>| p@);
    r.push(last);
    assert(r@.map_values(|p: Vec<char>| p@) =~= before.push(last@));
    r
}

/// The trimmed pieces of `parts` that are not empty after trimming, in order.
pub open spec fn trimmed_nonempty(parts: Seq<Seq<char>>) -> Seq<Seq<char>>
    decreases parts.len(),
{
    if parts.len() == 0 {
        Seq::empty()
    } else {
        let r = trimmed_nonempty(parts.drop_last());
        if trim(parts.last()).len() > 0 {
            r.push(trim(parts.last()))
        } else {
            r
        }
    }
}

/// Trims every part and keeps those that are not empty (see `trimmed_nonempty`).
pub fn keep_trimmed_nonempty(parts: &Vec<Vec<char>>) -> (r: Vec<Vec<char>>)
    ensures
        r@.map_values(|p: Vec<char>| p@) == trimmed_nonempty(parts@.map_values(|p: Vec<char>| p@)),
{
    let ghost views = parts@.map_values(|p: Vec<char>| p@);
    let mut r: Vec<Vec<char>> = Vec::new();
    let mut i: usize = 0;
    while i < parts.len()
        invariant
            i <= parts.len(),
            views == parts@.map_values(|p: Vec<char>| p@),
            r@.map_values(|p: Vec<char>| p@) == trimmed_nonempty(views.take(i as int)),
        decreases parts.len() - i,
    {
        assert(views.take(i + 1).drop_last() =~= views.take(i as int));
        assert(views.take(i + 1).last() == parts@[i as int]@);
        let t = trimmed(&parts[i]);
        if t.len() > 0 {
            let ghost before = r@.map_values(|p: Vec<char>| p@);
            r.push(t);
            assert(r@.map_values(|p: Vec<char>| p@) =~= before.push(t@));
        }
        i = i + 1;
    }
    assert(views.take(parts.len() as int) =~= views);
    r
}

/// Number of bytes of `c` in UTF-8.
pub open spec fn utf8_width(c: char) -> nat {
    if (c as u32) < 0x80 {
        1
    } else if (c as u32) < 0x800 {
        2
    } else if (c as u32) < 0x10000 {
        3
    } else {
        4
    }
}

/// Number of bytes of `s` in UTF-8 (`str::len`).
pub open spec fn byte_len(s: Seq<char>) -> nat
    decreases s.len(),
{
    if s.len() == 0 {
        0
    } else {
        byte_len(s.drop_last()) + utf8_width(s.last())
    }
}

/// Number of bytes of `c` in UTF-8 (`char::len_utf8`).
pub fn char_width(c: char) -> (w: u128)
    ensures
        w == utf8_width(c),
        1 <= w <= 4,
{
    let v = c as u32;
    if v < 0x80 {
        1
    } else if v < 0x800 {
        2
    } else if v < 0x10000 {
        3
    } else {
        4
    }
}

/// Number of bytes of `s` in UTF-8.
pub fn utf8_len(s: &Vec<char>) -> (n: u128)
    ensures
        n == byte_len(s@),
        n <= 4 * s.len(),
{
    let mut n: u128 = 0;
    let mut i: usize = 0;
    while i < s.len()
        invariant
            i <= s.len(),
            n == byte_len(s@.take(i as int)),
            n <= 4 * i,
        decreases s.len() - i,
    {
        assert(s@.take(i + 1).drop_last() =~= s@.take(i as int));
        n = n + char_width(s[i]);
        i = i + 1;
    }
    assert(s@.take(s.len() as int) =~= s@);
    n
}

pub proof fn lemma_byte_len_bound(s: Seq<char>)
    ensures
        byte_len(s) <= 4 * s.len(),
        s.len() <= byte_len(s),
    decreases s.len(),
{
    if s.len() > 0 {
        lemma_byte_len_bound(s.drop_last());
    }
}

/// `needle` occurs somewhere in `hay` (`str::contains`).
pub open spec fn seq_contains(hay: Seq<char>, needle: Seq<char>) -> bool {
    exists|i: int| matches_at(hay, needle, i)
}

/// Whether `needle` occurs in `hay`.
pub fn contains_chars(hay: &Vec<char>, needle: &[char]) -> (b: bool)
    ensures
        b == seq_contains(hay@, needle@),
{
    if needle.len() > hay.len() {
        assert forall|i: int| !matches_at(hay@, needle@, i) by {}
        return false;
    }
    if needle.len() == 0 {
        assert(hay@.subrange(0, 0) =~= needle@);
        assert(matches_at(hay@, needle@, 0));
        return true;
    }
    let mut i: usize = 0;
    while needle.len() <= hay.len() - i
        invariant
            0 < needle.len(),
            i <= hay.len(),
            forall|k: int| 0 <= k < i ==> !matches_at(hay@, needle@, k),
        decreases hay.len() - i,
    {
        if matches_here(hay, needle, i) {
            return true;
        }
        i = i + 1;
    }
    assert forall|k: int| !matches_at(hay@, needle@, k) by {
        if 0 <= k < i {
        }
    }
    false
}

/// `s` begins with `prefix` (`str::starts_with`).
pub open spec fn seq_starts_with(s: Seq<char>, prefix: Seq<char>) -> bool {
    prefix.len() <= s.len() && s.take(prefix.len() as int) == prefix
}

/// Whether `s` begins with `prefix`.
pub fn starts_with_chars(s: &Vec<char>, prefix: &[char]) -> (b: bool)
    ensures
        b == seq_starts_with(s@, prefix@),
{
    if prefix.len() > s.len() {
        return false;
    }
    let mut k: usize = 0;
    while k < prefix.len()
        invariant
            prefix.len() <= s.len(),
            k <= prefix.len(),
            forall|j: int| 0 <= j < k ==> s@[j] == prefix@[j],
        decreases prefix.len() - k,
    {
        if s[k] != prefix[k] {
            assert(s@.take(prefix.len() as int)[k as int] != prefix@[k as int]);
            return false;
        }
        k = k + 1;
    }
    assert(s@.take(prefix.len() as int) =~= prefix@);
    true
}

/// `s` without its leading white space (`str::trim_start`).
pub fn trim_start_chars(s: &Vec<char>) -> (r: Vec<char>)
    ensures
        r@ == trim_start(s@),
{
    let mut lo: usize = 0;
    while lo < s.len() && is_whitespace(s[lo])
        invariant
            lo <= s.len(),
            all_ws(s@.take(lo as int)),
        decreases s.len() - lo,
    {
        assert(s@.take(lo + 1) =~= s@.take(lo as int).push(s@[lo as int]));
        lo = lo + 1;
    }
    proof {
        lemma_trim_start_skip(s@, lo as int);
        if lo < s.len() {
            assert(s@.skip(lo as int)[0] == s@[lo as int]);
        }
        assert(trim_start(s@.skip(lo as int)) == s@.skip(lo as int));
    }
    let r = slice_chars(s, lo, s.len());
    assert(r@ =~= s@.skip(lo as int));
    r
}

/// The lower-case form of `s` under Unicode case mapping (`str::to_lowercase`).
pub uninterp spec fn lowercase_of(s: Seq<char>) -> Seq<char>;

/// `str::to_lowercase`.  Trusted: the result is the Unicode lower-case mapping of
/// the argument, a function of the argument alone, named `lowercase_of`.
#[verifier::external_body]
pub fn to_lowercase(s: &str) -> (r: String)
    ensures
        r@ == lowercase_of(s@),
{
    s.to_lowercase()
}

/// Whether two strings hold the same characters.
pub fn str_eq(a: &str, b: &str) -> (r: bool)
    ensures
        r == (a@ == b@),
{
    let x = a.to_owned();
    let y = b.to_owned();
    x == y
}

/// `a` comes before or equals `b` in code-point lexicographic order, the order of
/// `str` comparison.
pub open spec fn seq_le(a: Seq<char>, b: Seq<char>) -> bool
    decreases a.len(),
{
    if a.len() == 0 {
        true
    } else if b.len() == 0 {
        false
    } else if a[0] != b[0] {
        (a[0] as u32) < (b[0] as u32)
    } else {
        seq_le(a.drop_first(), b.drop_first())
    }
}

pub proof fn lemma_seq_le_total(a: Seq<char>, b: Seq<char>)
    ensures
        seq_le(a, b) || seq_le(b, a),
    decreases a.len(),
{
    if a.len() > 0 && b.len() > 0 && a[0] == b[0] {
        lemma_seq_le_total(a.drop_first(), b.drop_first());
    } else if a.len() > 0 && b.len() > 0 {
        vstd::utf8::char_u32_cast(a[0], a[0] as u32);
        vstd::utf8::char_u32_cast(b[0], b[0] as u32);
    }
}

pub proof fn lemma_seq_le_trans(a: Seq<char>, b: Seq<char>, c: Seq<char>)
    requires
        seq_le(a, b),
        seq_le(b, c),
    ensures
        seq_le(a, c),
    decreases a.len(),
{
    if a.len() > 0 && b.len() > 0 && c.len() > 0 && a[0] == b[0] && b[0] == c[0] {
        lemma_seq_le_trans(a.drop_first(), b.drop_first(), c.drop_first());
    }
}

proof fn lemma_seq_le_skip(a: Seq<char>, b: Seq<char>, i: int)
    requires
        0 <= i <= a.len(),
        i <= b.len(),
        a.take(i) == b.take(i),
    ensures
        seq_le(a, b) == seq_le(a.skip(i), b.skip(i)),
    decreases i,
{
    if i > 0 {
        assert(a[0] == a.take(i)[0]);
        assert(b[0] == b.take(i)[0]);
        assert(a.drop_first().take(i - 1) =~= a.take(i).drop_first());
        assert(b.drop_first().take(i - 1) =~= b.take(i).drop_first());
        lemma_seq_le_skip(a.drop_first(), b.drop_first(), i - 1);
        assert(a.drop_first().skip(i - 1) =~= a.skip(i));
        assert(b.drop_first().skip(i - 1) =~= b.skip(i));
    } else {
        assert(a.skip(0) =~= a);
        assert(b.skip(0) =~= b);
    }
}

/// Whether `a` comes before or equals `b` (see `seq_le`).
pub fn chars_le(a: &Vec<char>, b: &Vec<char>) -> (r: bool)
    ensures
        r == seq_le(a@, b@),
{
    let mut i: usize = 0;
    while i < a.len() && i < b.len() && a[i] == b[i]
        invariant
            i <= a.len(),
            i <= b.len(),
            a@.take(i as int) == b@.take(i as int),
        decreases a.len() - i,
    {
        assert(a@.take(i + 1) =~= a@.take(i as int).push(a@[i as int]));
        assert(b@.take(i + 1) =~= b@.take(i as int).push(b@[i as int]));
        i = i + 1;
    }
    proof {
        lemma_seq_le_skip(a@, b@, i as int);
    }
    if i == a.len() {
        true
    } else if i == b.len() {
        false
    } else {
        assert(a@.skip(i as int)[0] == a@[i as int]);
        assert(b@.skip(i as int)[0] == b@[i as int]);
        (a[i] as u32) < (b[i] as u32)
    }
}

/// Number of leading characters of `s` that fit in `n` UTF-8 bytes.
pub open spec fn chars_within_bytes(s: Seq<char>, n: nat) -> nat
    decreases s.len(),
{
    if s.len() == 0 || utf8_width(s[0]) > n {
        0
    } else {
        1 + chars_within_bytes(s.drop_first(), (n - utf8_width(s[0])) as nat)
    }
}

/// The longest prefix of `s` of at most `n` UTF-8 bytes (`&s[..n]` when `n` falls
/// between two characters).
pub open spec fn byte_prefix(s: Seq<char>, n: nat) -> Seq<char> {
    s.take(chars_within_bytes(s, n) as int)
}

proof fn lemma_chars_within_bytes_bound(s: Seq<char>, n: nat)
    ensures
        chars_within_bytes(s, n) <= s.len(),
    decreases s.len(),
{
    if s.len() > 0 && utf8_width(s[0]) <= n {
        lemma_chars_within_bytes_bound(s.drop_first(), (n - utf8_width(s[0])) as nat);
    }
}

/// The characters of `s` within its first `n` UTF-8 bytes, and their byte length.
pub fn byte_prefix_chars(s: &Vec<char>, n: u128) -> (r: (Vec<char>, u128))
    ensures
        r.0@ == byte_prefix(s@, n as nat),
        r.1 == byte_len(r.0@),
{
    let mut i: usize = 0;
    let mut bytes: u128 = 0;
    assert(s@.skip(0) =~= s@);
    while i < s.len() && char_width(s[i]) <= n - bytes
        invariant
            i <= s.len(),
            bytes <= n,
            bytes == byte_len(s@.take(i as int)),
            chars_within_bytes(s@, n as nat) == i + chars_within_bytes(
                s@.skip(i as int),
                (n - bytes) as nat,
            ),
        decreases s.len() - i,
    {
        let w = char_width(s[i]);
        assert(s@.skip(i as int)[0] == s@[i as int]);
        assert(s@.skip(i as int).drop_first() =~= s@.skip(i + 1));
        assert(s@.take(i + 1).drop_last() =~= s@.take(i as int));
        bytes = bytes + w;
        i = i + 1;
    }
    if i < s.len() {
        assert(s@.skip(i as int)[0] == s@[i as int]);
    }
    let p = slice_chars(s, 0, i);
    assert(p@ =~= s@.take(i as int));
    (p, bytes)
}

proof fn lemma_trim_start_shape(s: Seq<char>)
    ensures
        trim_start(s).len() == 0 <==> all_ws(s),
        trim_start(s).len() > 0 ==> !is_ws(trim_start(s)[0]),
    decreases s.len(),
{
    if s.len() > 0 && is_ws(s[0]) {
        lemma_trim_start_shape(s.drop_first());
        if all_ws(s.drop_first()) {
            assert forall|i: int| 0 <= i < s.len() implies #[trigger] is_ws(s[i]) by {
                if i > 0 {
                    assert(s[i] == s.drop_first()[i - 1]);
                }
            }
        }
        if all_ws(s) {
            assert forall|i: int| 0 <= i < s.len() - 1 implies #[trigger] is_ws(s.drop_first()[i]) by {
                assert(s.drop_first()[i] == s[i + 1]);
            }
        }
    } else if s.len() > 0 {
        assert(!is_ws(s[0]));
    }
}

proof fn lemma_trim_end_shape(s: Seq<char>)
    ensures
        trim_end(s).len() == 0 <==> all_ws(s),
        trim_end(s).len() <= s.len(),
        trim_end(s) == s.take(trim_end(s).len() as int),
    decreases s.len(),
{
    if s.len() > 0 && is_ws(s.last()) {
        lemma_trim_end_shape(s.drop_last());
        let k = trim_end(s.drop_last()).len() as int;
        assert(trim_end(s) == trim_end(s.drop_last()));
        assert(k <= s.len() - 1);
        assert(s.drop_last().take(k) =~= s.take(k));
        if all_ws(s.drop_last()) {
            assert forall|i: int| 0 <= i < s.len() implies #[trigger] is_ws(s[i]) by {
                if i < s.len() - 1 {
                    assert(s[i] == s.drop_last()[i]);
                }
            }
        }
        if all_ws(s) {
            assert forall|i: int| 0 <= i < s.len() - 1 implies #[trigger] is_ws(s.drop_last()[i]) by {
                assert(s.drop_last()[i] == s[i]);
            }
        }
    } else {
        assert(s.take(s.len() as int) =~= s);
        if s.len() > 0 {
            assert(!is_ws(s[s.len() - 1]));
        }
    }
}

/// `trim(s)` is empty exactly when `s` is all white space, and when it is not empty
/// it starts with a character that is not white space.
pub proof fn lemma_trim_empty_iff(s: Seq<char>)
    ensures
        trim(s).len() == 0 <==> all_ws(s),
        trim(s).len() > 0 ==> !all_ws(trim(s)),
{
    let t = trim_start(s);
    lemma_trim_start_shape(s);
    lemma_trim_end_shape(t);
    if t.len() > 0 {
        assert(!all_ws(t)) by {
            assert(!is_ws(t[0]));
        }
    }
    if trim(s).len() > 0 {
        assert(trim(s) == trim_end(t));
        assert(trim(s) == t.take(trim(s).len() as int));
        assert(trim(s)[0] == t[0]);
        assert(!is_ws(trim(s)[0]));
    }
}

/// `a + b` is all white space exactly when both are.
pub proof fn lemma_all_ws_concat(a: Seq<char>, b: Seq<char>)
    ensures
        all_ws(a + b) <==> (all_ws(a) && all_ws(b)),
{
    if all_ws(a + b) {
        assert forall|i: int| 0 <= i < a.len() implies #[trigger] is_ws(a[i]) by {
            assert((a + b)[i] == a[i]);
        }
        assert forall|i: int| 0 <= i < b.len() implies #[trigger] is_ws(b[i]) by {
            assert((a + b)[a.len() + i] == b[i]);
        }
    }
    if all_ws(a) && all_ws(b) {
        assert forall|i: int| 0 <= i < (a + b).len() implies #[trigger] is_ws((a + b)[i]) by {
            if i < a.len() {
                assert((a + b)[i] == a[i]);
            } else {
                assert((a + b)[i] == b[i - a.len()]);
            }
        }
    }
}

/// Every part holds only white space.
pub open spec fn all_parts_ws(parts: Seq<Seq<char>>) -> bool {
    forall|i: int| 0 <= i < parts.len() ==> all_ws(#[trigger] parts[i])
}

/// Joining white-space parts with a white-space separator gives white space.
pub proof fn lemma_join_all_ws(parts: Seq<Seq<char>>, sep: Seq<char>)
    requires
        all_ws(sep),
        all_parts_ws(parts),
    ensures
        all_ws(join_seqs(parts, sep)),
    decreases parts.len(),
{
    if parts.len() == 1 {
        assert(all_ws(parts[0]));
    } else if parts.len() > 1 {
        let dl = parts.drop_last();
        assert forall|i: int| 0 <= i < dl.len() implies all_ws(#[trigger] dl[i]) by {
            assert(dl[i] == parts[i]);
        }
        lemma_join_all_ws(dl, sep);
        assert(all_ws(parts.last()));
        lemma_all_ws_concat(join_seqs(dl, sep), sep);
        lemma_all_ws_concat(join_seqs(dl, sep) + sep, parts.last());
    }
}

/// A part that is not blank keeps the join from being blank.
pub proof fn lemma_join_has_text(parts: Seq<Seq<char>>, sep: Seq<char>, k: int)
    requires
        0 <= k < parts.len(),
        !all_ws(parts[k]),
    ensures
        !all_ws(join_seqs(parts, sep)),
    decreases parts.len(),
{
    if parts.len() > 1 {
        let dl = parts.drop_last();
        let j = join_seqs(dl, sep);
        lemma_all_ws_concat(j, sep);
        lemma_all_ws_concat(j + sep, parts.last());
        if k < parts.len() - 1 {
            assert(dl[k] == parts[k]);
            lemma_join_has_text(dl, sep, k);
        }
    }
}

/// The parts that `trimmed_nonempty` keeps are never blank.
pub proof fn lemma_trimmed_nonempty_text(parts: Seq<Seq<char>>)
    ensures
        forall|i: int|
            0 <= i < trimmed_nonempty(parts).len() ==> !all_ws(#[trigger] trimmed_nonempty(parts)[i]),
    decreases parts.len(),
{
    if parts.len() > 0 {
        let r = trimmed_nonempty(parts.drop_last());
        lemma_trimmed_nonempty_text(parts.drop_last());
        lemma_trim_empty_iff(parts.last());
        assert forall|i: int| 0 <= i < trimmed_nonempty(parts).len() implies !all_ws(
            #[trigger] trimmed_nonempty(parts)[i],
        ) by {
            if i < r.len() {
                assert(trimmed_nonempty(parts)[i] == r[i]);
            }
        }
    }
}

/// `trimmed_nonempty` keeps something as soon as one part is not blank.
pub proof fn lemma_trimmed_nonempty_found(parts: Seq<Seq<char>>, k: int)
    requires
        0 <= k < parts.len(),
        !all_ws(parts[k]),
    ensures
        trimmed_nonempty(parts).len() > 0,
    decreases parts.len(),
{
    lemma_trim_empty_iff(parts.last());
    if k < parts.len() - 1 {
        assert(parts.drop_last()[k] == parts[k]);
        lemma_trimmed_nonempty_found(parts.drop_last(), k);
    }
}

proof fn lemma_split_scan_nonempty(s: Seq<char>, pat: Seq<char>, piece_start: int, i: int)
    ensures
        split_scan(s, pat, piece_start, i).len() >= 1,
    decreases s.len() - i,
{
    if pat.len() == 0 || i < piece_start || piece_start < 0 || i + pat.len() > s.len() {
    } else if matches_at(s, pat, i) {
        lemma_split_scan_nonempty(s, pat, i + pat.len(), i + pat.len());
    } else {
        lemma_split_scan_nonempty(s, pat, piece_start, i + 1);
    }
}

proof fn lemma_join_prepend(x: Seq<char>, rest: Seq<Seq<char>>, sep: Seq<char>)
    requires
        rest.len() >= 1,
    ensures
        join_seqs(seq![x] + rest, sep) == x + sep + join_seqs(rest, sep),
    decreases rest.len(),
{
    let all = seq![x] + rest;
    assert(all.last() == rest.last());
    if rest.len() == 1 {
        assert(all.drop_last() =~= seq![x]);
        assert(join_seqs(seq![x], sep) == x);
    } else {
        assert(all.drop_last() =~= seq![x] + rest.drop_last());
        lemma_join_prepend(x, rest.drop_last(), sep);
        assert(x + sep + join_seqs(rest.drop_last(), sep) + sep + rest.last() =~= x + sep + (
        join_seqs(rest.drop_last(), sep) + sep + rest.last()));
    }
}

proof fn lemma_split_scan_join(s: Seq<char>, pat: Seq<char>, piece_start: int, i: int)
    requires
        0 <= piece_start <= i <= s.len(),
    ensures
        join_seqs(split_scan(s, pat, piece_start, i), pat) == s.subrange(piece_start, s.len() as int),
    decreases s.len() - i,
{
    if pat.len() == 0 || i < piece_start || piece_start < 0 || i + pat.len() > s.len() {
    } else if matches_at(s, pat, i) {
        let j = i + pat.len();
        lemma_split_scan_join(s, pat, j, j);
        lemma_split_scan_nonempty(s, pat, j, j);
        lemma_join_prepend(s.subrange(piece_start, i), split_scan(s, pat, j, j), pat);
        assert(s.subrange(piece_start, i) + pat + s.subrange(j, s.len() as int) =~= s.subrange(
            piece_start,
            s.len() as int,
        ));
    } else {
        lemma_split_scan_join(s, pat, piece_start, i + 1);
    }
}

/// Joining the pieces of a split with the pattern gives the text back.
pub proof fn lemma_split_join(s: Seq<char>, pat: Seq<char>)
    ensures
        join_seqs(split_seq(s, pat), pat) == s,
{
    lemma_split_scan_join(s, pat, 0, 0);
    assert(s.subrange(0, s.len() as int) =~= s);
}

/// Splitting a text that is not blank at a white-space pattern leaves a piece that is
/// not blank after trimming.
pub proof fn lemma_split_keeps_text(s: Seq<char>, pat: Seq<char>)
    requires
        !all_ws(s),
        all_ws(pat),
    ensures
        trimmed_nonempty(split_seq(s, pat)).len() > 0,
{
    let parts = split_seq(s, pat);
    lemma_split_join(s, pat);
    if all_parts_ws(parts) {
        lemma_join_all_ws(parts, pat);
    }
    let k = choose|k: int| 0 <= k < parts.len() && !all_ws(#[trigger] parts[k]);
    lemma_trimmed_nonempty_found(parts, k);
}

/// A text contains whatever stands in its middle.
pub proof fn lemma_contains_infix(a: Seq<char>, t: Seq<char>, b: Seq<char>)
    ensures
        seq_contains(a + t + b, t),
{
    assert((a + t + b).subrange(a.len() as int, (a.len() + t.len()) as int) =~= t);
    assert(matches_at(a + t + b, t, a.len() as int));
}

/// Containment survives adding text on either side.
pub proof fn lemma_contains_extend(a: Seq<char>, s: Seq<char>, b: Seq<char>, t: Seq<char>)
    requires
        seq_contains(s, t),
    ensures
        seq_contains(a + s + b, t),
{
    let i = choose|i: int| matches_at(s, t, i);
    assert((a + s + b).subrange(a.len() + i, a.len() + i + t.len()) =~= s.subrange(i, i + t.len()));
    assert(matches_at(a + s + b, t, a.len() + i));
}

} // verus!

