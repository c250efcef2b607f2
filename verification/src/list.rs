use vstd::prelude::*;

use crate::domain::{DirEntryInfo, ListSkillsInput, ListSkillsOutput, SkillEntry};
use crate::text::{
    chars_le, chars_of, contains_chars, lemma_seq_le_total, lemma_seq_le_trans, lowercase_of,
    seq_contains, seq_le, to_lowercase,
};

verus! {

/// A hidden folder: its name starts with a dot.
pub open spec fn is_hidden(name: Seq<char>) -> bool {
    name.len() > 0 && name[0] == '.'
}

/// Whether a directory entry is listed: it is a directory, it is not hidden unless
/// hidden ones are wanted, and its lower-cased name contains the lower-cased filter.
pub open spec fn is_listed(
    e: DirEntryInfo,
    include_hidden: bool,
    filter: Option<Seq<char>>,
) -> bool {
    &&& e.is_dir
    &&& include_hidden || !is_hidden(e.name@)
    &&& match filter {
        Some(f) => seq_contains(lowercase_of(e.name@), lowercase_of(f)),
        None => true,
    }
}

/// A listed skill as plain values: slug and path.
pub open spec fn entry_view(e: SkillEntry) -> (Seq<char>, Seq<char>) {
    (e.slug@, e.path@)
}

pub open spec fn entry_views(v: Seq<SkillEntry>) -> Seq<(Seq<char>, Seq<char>)> {
    v.map_values(|e: SkillEntry| entry_view(e))
}

/// The listed entries of a directory, in directory order, as (slug, path).
pub open spec fn listed_entries(
    entries: Seq<DirEntryInfo>,
    include_hidden: bool,
    filter: Option<Seq<char>>,
) -> Seq<(Seq<char>, Seq<char>)>
    decreases entries.len(),
{
    if entries.len() == 0 {
        Seq::empty()
    } else {
        let r = listed_entries(entries.drop_last(), include_hidden, filter);
        let e = entries.last();
        if is_listed(e, include_hidden, filter) {
            r.push((e.name@, e.path@))
        } else {
            r
        }
    }
}

/// Sorted by slug.
pub open spec fn sorted_by_slug(v: Seq<(Seq<char>, Seq<char>)>) -> bool {
    forall|i: int, j: int| 0 <= i < j < v.len() ==> seq_le(#[trigger] v[i].0, #[trigger] v[j].0)
}

pub open spec fn opt_view(o: Option<String>) -> Option<Seq<char>> {
    match o {
        Some(s) => Some(s@),
        None => None,
    }
}

/// Inserts `e` after every entry whose slug is not greater, keeping the order sorted.
fn insert_sorted(items: &mut Vec<SkillEntry>, e: SkillEntry)
    requires
        sorted_by_slug(entry_views(old(items)@)),
    ensures
        sorted_by_slug(entry_views(final(items)@)),
        entry_views(final(items)@).to_multiset() == entry_views(old(items)@).to_multiset().insert(
            entry_view(e),
        ),
{
    let ghost v = entry_views(items@);
    let key = chars_of(e.slug.as_str());
    let mut pos: usize = 0;
    while pos < items.len() && chars_le(&chars_of(items[pos].slug.as_str()), &key)
        invariant
            pos <= items.len(),
            v == entry_views(items@),
            key@ == e.slug@,
            forall|k: int| 0 <= k < pos ==> seq_le(#[trigger] v[k].0, e.slug@),
        decreases items.len() - pos,
    {
        pos = pos + 1;
    }
    proof {
        if pos < items.len() {
            assert(!seq_le(v[pos as int].0, e.slug@));
            lemma_seq_le_total(v[pos as int].0, e.slug@);
        }
    }
    items.insert(pos, e);
    let ghost w = entry_views(items@);
    assert(w =~= v.insert(pos as int, entry_view(e)));
    assert forall|i: int, j: int| 0 <= i < j < w.len() implies seq_le(
        #[trigger] w[i].0,
        #[trigger] w[j].0,
    ) by {
        if j < pos {
        } else if j == pos {
            assert(seq_le(v[i].0, e.slug@));
        } else if i < pos {
            assert(seq_le(v[i].0, e.slug@));
            assert(seq_le(e.slug@, v[pos as int].0));
            lemma_seq_le_trans(v[i].0, e.slug@, v[pos as int].0);
            if pos < j - 1 {
                lemma_seq_le_trans(v[i].0, v[pos as int].0, v[j - 1].0);
            }
        } else if i == pos {
            if pos < j - 1 {
                lemma_seq_le_trans(e.slug@, v[pos as int].0, v[j - 1].0);
            }
        } else {
            assert(seq_le(v[i - 1].0, v[j - 1].0));
        }
    }
    proof {
        vstd::seq_lib::to_multiset_insert(v, pos as int, entry_view(e));
    }
}

/// The skill folders among the entries of one root, filtered and sorted by slug.
pub fn list_one_root(entries: &Vec<DirEntryInfo>, include_hidden: bool, filter: Option<&str>) -> (r:
    Vec<SkillEntry>)
    ensures
        sorted_by_slug(entry_views(r@)),
        entry_views(r@).to_multiset() == listed_entries(
            entries@,
            include_hidden,
            match filter {
                Some(f) => Some(f@),
                None => None,
            },
        ).to_multiset(),
{
    let ghost fv: Option<Seq<char>> = match filter {
        Some(f) => Some(f@),
        None => None,
    };
    let needle: Option<Vec<char>> = match filter {
        Some(f) => Some(chars_of(to_lowercase(f).as_str())),
        None => None,
    };
    let mut items: Vec<SkillEntry> = Vec::new();
    assert(entry_views(items@) =~= Seq::<(Seq<char>, Seq<char>)>::empty());
    assert(entries@.take(0) =~= Seq::<DirEntryInfo>::empty());
    assert(listed_entries(entries@.take(0), include_hidden, fv) =~= entry_views(items@));
    let mut i: usize = 0;
    while i < entries.len()
        invariant
            i <= entries.len(),
            match needle {
                Some(n) => fv matches Some(f) && n@ == lowercase_of(f),
                None => fv is None,
            },
            sorted_by_slug(entry_views(items@)),
            entry_views(items@).to_multiset() == listed_entries(
                entries@.take(i as int),
                include_hidden,
                fv,
            ).to_multiset(),
        decreases entries.len() - i,
    {
        assert(entries@.take(i + 1).drop_last() =~= entries@.take(i as int));
        let e = &entries[i];
        let name = chars_of(e.name.as_str());
        let hidden = name.len() > 0 && name[0] == '.';
        let mut keep = e.is_dir && (include_hidden || !hidden);
        if keep {
            match &needle {
                Some(n) => {
                    let lowered = chars_of(to_lowercase(e.name.as_str()).as_str());
                    keep = contains_chars(&lowered, n.as_slice());
                },
                None => {},
            }
        }
        assert(keep == is_listed(entries@[i as int], include_hidden, fv));
        if keep {
            let entry = SkillEntry { slug: e.name.clone(), path: e.path.clone() };
            let ghost before = listed_entries(entries@.take(i as int), include_hidden, fv);
            insert_sorted(&mut items, entry);
            proof {
                vstd::seq_lib::to_multiset_build(before, (e.name@, e.path@));
            }
        }
        i = i + 1;
    }
    assert(entries@.take(entries.len() as int) =~= entries@);
    items
}

/// The enabled and disabled skills, from the entries of the enabled and the disabled
/// root (see `list_one_root`).
pub fn list_skills(
    input: &ListSkillsInput,
    enabled_entries: &Vec<DirEntryInfo>,
    disabled_entries: &Vec<DirEntryInfo>,
) -> (r: ListSkillsOutput)
    ensures
        sorted_by_slug(entry_views(r.enabled@)),
        sorted_by_slug(entry_views(r.disabled@)),
        entry_views(r.enabled@).to_multiset() == listed_entries(
            enabled_entries@,
            input.include_hidden,
            opt_view(input.filter),
        ).to_multiset(),
        entry_views(r.disabled@).to_multiset() == listed_entries(
            disabled_entries@,
            input.include_hidden,
            opt_view(input.filter),
        ).to_multiset(),
{
    let filter: Option<&str> = match &input.filter {
        Some(f) => Some(f.as_str()),
        None => None,
    };
    ListSkillsOutput {
        enabled: list_one_root(enabled_entries, input.include_hidden, filter),
        disabled: list_one_root(disabled_entries, input.include_hidden, filter),
    }
}

/// The filter ignores case: two filters with the same lower-case form list the same
/// entries.
pub proof fn filter_ignores_case(
    entries: Seq<DirEntryInfo>,
    include_hidden: bool,
    f: Seq<char>,
    g: Seq<char>,
)
    requires
        lowercase_of(f) == lowercase_of(g),
    ensures
        listed_entries(entries, include_hidden, Some(f)) == listed_entries(
            entries,
            include_hidden,
            Some(g),
        ),
    decreases entries.len(),
{
    if entries.len() > 0 {
        filter_ignores_case(entries.drop_last(), include_hidden, f, g);
    }
}

/// A directory shown under `filter`: visible unless hidden ones are wanted (a hidden
/// name starts with a dot), and its lower-cased name contains the lower-cased filter.
pub open spec fn shown_directory(e: DirEntryInfo, include_hidden: bool, filter: Option<Seq<char>>) -> bool {
    &&& e.is_dir
    &&& include_hidden || !(e.name@.len() > 0 && e.name@[0] == '.')
    &&& filter matches Some(f) ==> seq_contains(lowercase_of(e.name@), lowercase_of(f))
}

/// `item` is the (name, path) of a shown directory among `entries`.
pub open spec fn from_shown_directory(
    item: (Seq<char>, Seq<char>),
    entries: Seq<DirEntryInfo>,
    include_hidden: bool,
    filter: Option<Seq<char>>,
) -> bool {
    exists|j: int|
        0 <= j < entries.len() && shown_directory(#[trigger] entries[j], include_hidden, filter)
            && item == (entries[j].name@, entries[j].path@)
}

/// The listing holds exactly the shown directories: each listed entry is one, and
/// each one is listed.
pub proof fn listing_is_the_shown_directories(
    entries: Seq<DirEntryInfo>,
    include_hidden: bool,
    filter: Option<Seq<char>>,
)
    ensures
        forall|k: int|
            0 <= k < listed_entries(entries, include_hidden, filter).len() ==> from_shown_directory(
                #[trigger] listed_entries(entries, include_hidden, filter)[k],
                entries,
                include_hidden,
                filter,
            ),
        forall|j: int|
            0 <= j < entries.len() && shown_directory(#[trigger] entries[j], include_hidden, filter)
                ==> listed_entries(entries, include_hidden, filter).contains(
                (entries[j].name@, entries[j].path@),
            ),
    decreases entries.len(),
{
    if entries.len() > 0 {
        let dl = entries.drop_last();
        let r = listed_entries(dl, include_hidden, filter);
        let l = listed_entries(entries, include_hidden, filter);
        listing_is_the_shown_directories(dl, include_hidden, filter);
        assert forall|k: int| 0 <= k < l.len() implies from_shown_directory(
            #[trigger] l[k],
            entries,
            include_hidden,
            filter,
        ) by {
            if k < r.len() {
                assert(l[k] == r[k]);
                assert(from_shown_directory(r[k], dl, include_hidden, filter));
                let j = choose|j: int|
                    0 <= j < dl.len() && shown_directory(#[trigger] dl[j], include_hidden, filter)
                        && r[k] == (dl[j].name@, dl[j].path@);
                assert(entries[j] == dl[j]);
                assert(shown_directory(entries[j], include_hidden, filter));
            } else {
                let j = entries.len() - 1;
                assert(entries[j] == entries.last());
                assert(shown_directory(entries[j], include_hidden, filter));
            }
        }
        assert forall|j: int|
            0 <= j < entries.len() && shown_directory(#[trigger] entries[j], include_hidden, filter)
            implies l.contains((entries[j].name@, entries[j].path@)) by {
            if j < entries.len() - 1 {
                assert(dl[j] == entries[j]);
                let k = choose|k: int| 0 <= k < r.len() && r[k] == (dl[j].name@, dl[j].path@);
                assert(l[k] == r[k]);
            } else {
                assert(l[l.len() - 1] == (entries[j].name@, entries[j].path@));
            }
        }
    }
}

} // verus!

