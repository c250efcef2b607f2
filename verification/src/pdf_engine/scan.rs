use vstd::prelude::*;

use super::types::{PdfEngineError, PdfFileTask};
use crate::domain::DirEntryInfo;
use crate::text::{
    chars_le, chars_of, lemma_seq_le_total, lemma_seq_le_trans, push_all, seq_le,
    string_from_chars,
};

verus! {

/// The extension of a file name (`Path::extension`): what follows its last dot, when
/// that dot is not the first character; none for `..`.
pub open spec fn spec_extension(name: Seq<char>) -> Option<Seq<char>> {
    if name == seq!['.', '.'] {
        None
    } else if exists|k: int| 0 < k < name.len() && name[k] == '.' {
        let k = choose|k: int|
            0 < k < name.len() && name[k] == '.' && forall|j: int| k < j < name.len() ==> name[j] != '.';
        Some(name.skip(k + 1))
    } else {
        None
    }
}

/// `char::to_ascii_lowercase`.
pub open spec fn lower_ascii(c: char) -> char {
    crate::skill_slug::ascii_lower(c)
}

/// A PDF by name: its extension is `pdf` in any ASCII case.
pub open spec fn has_pdf_extension(name: Seq<char>) -> bool {
    match spec_extension(name) {
        Some(e) => e.len() == 3 && lower_ascii(e[0]) == 'p' && lower_ascii(e[1]) == 'd'
            && lower_ascii(e[2]) == 'f',
        None => false,
    }
}

fn to_lower_ascii(c: char) -> (r: char)
    ensures
        r == lower_ascii(c),
{
    if 'A' <= c && c <= 'Z' {
        ((c as u8) + 32) as char
    } else {
        c
    }
}

/// Whether `name` has the extension `pdf` (see `has_pdf_extension`).
pub fn is_pdf_name(name: &str) -> (b: bool)
    ensures
        b == has_pdf_extension(name@),
{
    let n = chars_of(name);
    if n.len() == 2 && n[0] == '.' && n[1] == '.' {
        assert(n@ =~= seq!['.', '.']);
        return false;
    }
    assert(n@ != seq!['.', '.']) by {
        if n@ == seq!['.', '.'] {
            assert(n@.len() == 2 && n@[0] == '.' && n@[1] == '.');
        }
    }
    let mut k = n.len();
    while k > 0 && n[k - 1] != '.'
        invariant
            k <= n.len(),
            forall|j: int| k <= j < n.len() ==> n@[j] != '.',
        decreases k,
    {
        k = k - 1;
    }
    if k <= 1 {
        assert forall|j: int| 0 < j < n@.len() implies n@[j] != '.' by {
            if k == 1 && j >= 1 {
            }
        }
        return false;
    }
    let dot = k - 1;
    proof {
        assert(0 < dot < n@.len() && n@[dot as int] == '.');
        let c = choose|c: int|
            0 < c < n@.len() && n@[c] == '.' && forall|j: int| c < j < n@.len() ==> n@[j] != '.';
        if c < dot {
            assert(n@[dot as int] != '.');
        } else if c > dot {
            assert(n@[c] != '.');
        }
    }
    let ext_len = n.len() - k;
    if ext_len != 3 {
        return false;
    }
    to_lower_ascii(n[k]) == 'p' && to_lower_ascii(n[k + 1]) == 'd' && to_lower_ascii(n[k + 2]) == 'f'
}

pub open spec fn task_view(t: PdfFileTask) -> (Seq<char>, Seq<char>) {
    (t.file_name@, t.absolute_path@)
}

pub open spec fn task_views(v: Seq<PdfFileTask>) -> Seq<(Seq<char>, Seq<char>)> {
    v.map_values(|t: PdfFileTask| task_view(t))
}

/// The PDF files among the entries of a directory, in directory order, as
/// (file name, path).
pub open spec fn pdf_entries(entries: Seq<DirEntryInfo>) -> Seq<(Seq<char>, Seq<char>)>
    decreases entries.len(),
{
    if entries.len() == 0 {
        Seq::empty()
    } else {
        let r = pdf_entries(entries.drop_last());
        let e = entries.last();
        if e.is_file && has_pdf_extension(e.name@) {
            r.push((e.name@, e.path@))
        } else {
            r
        }
    }
}

/// Sorted by file name.
pub open spec fn sorted_by_name(v: Seq<(Seq<char>, Seq<char>)>) -> bool {
    forall|i: int, j: int| 0 <= i < j < v.len() ==> seq_le(#[trigger] v[i].0, #[trigger] v[j].0)
}

fn insert_sorted(items: &mut Vec<PdfFileTask>, t: PdfFileTask)
    requires
        sorted_by_name(task_views(old(items)@)),
    ensures
        sorted_by_name(task_views(final(items)@)),
        task_views(final(items)@).to_multiset() == task_views(old(items)@).to_multiset().insert(
            task_view(t),
        ),
{
    let ghost v = task_views(items@);
    let key = chars_of(t.file_name.as_str());
    let mut pos: usize = 0;
    while pos < items.len() && chars_le(&chars_of(items[pos].file_name.as_str()), &key)
        invariant
            pos <= items.len(),
            v == task_views(items@),
            key@ == t.file_name@,
            forall|k: int| 0 <= k < pos ==> seq_le(#[trigger] v[k].0, t.file_name@),
        decreases items.len() - pos,
    {
        pos = pos + 1;
    }
    proof {
        if pos < items.len() {
            assert(!seq_le(v[pos as int].0, t.file_name@));
            lemma_seq_le_total(v[pos as int].0, t.file_name@);
        }
    }
    items.insert(pos, t);
    let ghost w = task_views(items@);
    assert(w =~= v.insert(pos as int, task_view(t)));
    assert forall|i: int, j: int| 0 <= i < j < w.len() implies seq_le(
        #[trigger] w[i].0,
        #[trigger] w[j].0,
    ) by {
        if j < pos {
        } else if j == pos {
            assert(seq_le(v[i].0, t.file_name@));
        } else if i < pos {
            assert(seq_le(v[i].0, t.file_name@));
            assert(seq_le(t.file_name@, v[pos as int].0));
            lemma_seq_le_trans(v[i].0, t.file_name@, v[pos as int].0);
            if pos < j - 1 {
                lemma_seq_le_trans(v[i].0, v[pos as int].0, v[j - 1].0);
            }
        } else if i == pos {
            if pos < j - 1 {
                lemma_seq_le_trans(t.file_name@, v[pos as int].0, v[j - 1].0);
            }
        } else {
            assert(seq_le(v[i - 1].0, v[j - 1].0));
        }
    }
    proof {
        vstd::seq_lib::to_multiset_insert(v, pos as int, task_view(t));
    }
}

/// The PDF files of a directory listing, as tasks sorted by file name.
pub fn select_pdf_tasks(entries: &Vec<DirEntryInfo>) -> (r: Vec<PdfFileTask>)
    ensures
        sorted_by_name(task_views(r@)),
        task_views(r@).to_multiset() == pdf_entries(entries@).to_multiset(),
{
    let mut items: Vec<PdfFileTask> = Vec::new();
    assert(task_views(items@) =~= Seq::<(Seq<char>, Seq<char>)>::empty());
    assert(entries@.take(0) =~= Seq::<DirEntryInfo>::empty());
    assert(pdf_entries(entries@.take(0)) =~= task_views(items@));
    let mut i: usize = 0;
    while i < entries.len()
        invariant
            i <= entries.len(),
            sorted_by_name(task_views(items@)),
            task_views(items@).to_multiset() == pdf_entries(entries@.take(i as int)).to_multiset(),
        decreases entries.len() - i,
    {
        assert(entries@.take(i + 1).drop_last() =~= entries@.take(i as int));
        let e = &entries[i];
        if e.is_file && is_pdf_name(e.name.as_str()) {
            let task = PdfFileTask { file_name: e.name.clone(), absolute_path: e.path.clone() };
            let ghost before = pdf_entries(entries@.take(i as int));
            insert_sorted(&mut items, task);
            proof {
                vstd::seq_lib::to_multiset_build(before, (e.name@, e.path@));
            }
        }
        i = i + 1;
    }
    assert(entries@.take(entries.len() as int) =~= entries@);
    items
}

/// The error for a path that is not a directory.
pub fn not_a_directory(directory: &str) -> (r: PdfEngineError)
    ensures
        r matches PdfEngineError::InvalidInput(m) && m@ == "not a directory: "@ + directory@,
{
    let mut out = chars_of("not a directory: ");
    push_all(&mut out, chars_of(directory).as_slice());
    PdfEngineError::InvalidInput(string_from_chars(out.as_slice()))
}

} // verus!
