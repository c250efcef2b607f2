use vstd::prelude::*;

use crate::domain::{Direction, ListSkillsOutput, OperationMode, RootsInfo, SkillEntry, StartOperationInput};
use crate::paths::{join, join_path};
use crate::skill_slug::{is_safe_slug, spec_is_safe_slug};

verus! {

/// One move of a plan: the skill's slug, where it is and where it goes.
#[derive(Debug, Clone)]
pub struct MovePlanItem {
    pub slug: String,
    pub src: String,
    pub dst: String,
}

pub open spec fn item_view(i: MovePlanItem) -> (Seq<char>, Seq<char>, Seq<char>) {
    (i.slug@, i.src@, i.dst@)
}

pub open spec fn item_views(v: Seq<MovePlanItem>) -> Seq<(Seq<char>, Seq<char>, Seq<char>)> {
    v.map_values(|i: MovePlanItem| item_view(i))
}

pub open spec fn slugs_of_entries(v: Seq<SkillEntry>) -> Seq<Seq<char>> {
    v.map_values(|e: SkillEntry| e.slug@)
}

pub open spec fn strings_view(v: Seq<String>) -> Seq<Seq<char>> {
    v.map_values(|s: String| s@)
}

/// The slugs a move considers: the selected ones (none when absent), or, for all
/// visible skills, those listed on the side they move from.
pub open spec fn source_slugs(input: StartOperationInput, listed: ListSkillsOutput) -> Seq<Seq<char>> {
    match input.mode {
        OperationMode::Selected => match input.slugs {
            Some(v) => strings_view(v@),
            None => Seq::empty(),
        },
        OperationMode::AllVisible => match input.direction {
            Direction::Disable => slugs_of_entries(listed.enabled@),
            Direction::Enable => slugs_of_entries(listed.disabled@),
        },
    }
}

/// The root a move takes skills from, and the one it takes them to.
pub open spec fn move_roots(direction: Direction, roots: RootsInfo) -> (Seq<char>, Seq<char>) {
    match direction {
        Direction::Disable => (roots.enabled_root@, roots.disabled_root@),
        Direction::Enable => (roots.disabled_root@, roots.enabled_root@),
    }
}

/// The moves for `slugs`, in order: unsafe slugs are dropped, each other slug moves
/// from `from/slug` to `to/slug`.
pub open spec fn plan_moves(slugs: Seq<Seq<char>>, from: Seq<char>, to: Seq<char>) -> Seq<
    (Seq<char>, Seq<char>, Seq<char>),
>
    decreases slugs.len(),
{
    if slugs.len() == 0 {
        Seq::empty()
    } else {
        let r = plan_moves(slugs.drop_last(), from, to);
        let s = slugs.last();
        if spec_is_safe_slug(s) {
            r.push((s, join_path(from, s), join_path(to, s)))
        } else {
            r
        }
    }
}

/// Plans a move of skills (see `source_slugs` and `plan_moves`), given the skill
/// roots and, for all visible skills, the current listing.
pub fn build_plan(input: &StartOperationInput, roots: &RootsInfo, listed: &ListSkillsOutput) -> (r:
    Vec<MovePlanItem>)
    ensures
        item_views(r@) == plan_moves(
            source_slugs(*input, *listed),
            move_roots(input.direction, *roots).0,
            move_roots(input.direction, *roots).1,
        ),
{
    let mut slugs: Vec<String> = Vec::new();
    match input.mode {
        OperationMode::Selected => match &input.slugs {
            Some(v) => {
                let mut k: usize = 0;
                while k < v.len()
                    invariant
                        k <= v.len(),
                        strings_view(slugs@) == strings_view(v@.take(k as int)),
                    decreases v.len() - k,
                {
                    let ghost before = slugs@;
                    let c = v[k].clone();
                    assert(c@ == v@[k as int]@);
                    slugs.push(c);
                    assert(slugs@ == before.push(c));
                    assert(strings_view(before).len() == k);
                    assert(strings_view(slugs@) =~= strings_view(before).push(c@));
                    assert(strings_view(v@.take(k + 1)) =~= strings_view(v@.take(k as int)).push(c@));
                    assert(strings_view(slugs@) =~= strings_view(v@.take(k + 1)));
                    k = k + 1;
                }
                assert(v@.take(v.len() as int) =~= v@);
            },
            None => {},
        },
        OperationMode::AllVisible => {
            let side = match input.direction {
                Direction::Disable => &listed.enabled,
                Direction::Enable => &listed.disabled,
            };
            let mut k: usize = 0;
            while k < side.len()
                invariant
                    k <= side.len(),
                    strings_view(slugs@) == slugs_of_entries(side@.take(k as int)),
                decreases side.len() - k,
            {
                let ghost before = slugs@;
                let c = side[k].slug.clone();
                assert(c@ == side@[k as int].slug@);
                slugs.push(c);
                assert(slugs@ == before.push(c));
                assert(strings_view(before).len() == k);
                assert(strings_view(slugs@) =~= strings_view(before).push(c@));
                assert(slugs_of_entries(side@.take(k + 1)) =~= slugs_of_entries(
                    side@.take(k as int),
                ).push(c@));
                assert(strings_view(slugs@) =~= slugs_of_entries(side@.take(k + 1)));
                k = k + 1;
            }
            assert(side@.take(side.len() as int) =~= side@);
        },
    }
    let ghost sv = strings_view(slugs@);
    assert(sv =~= source_slugs(*input, *listed));
    let (from, to) = match input.direction {
        Direction::Disable => (roots.enabled_root.as_str(), roots.disabled_root.as_str()),
        Direction::Enable => (roots.disabled_root.as_str(), roots.enabled_root.as_str()),
    };
    let mut plan: Vec<MovePlanItem> = Vec::new();
    let mut i: usize = 0;
    while i < slugs.len()
        invariant
            i <= slugs.len(),
            sv == strings_view(slugs@),
            item_views(plan@) == plan_moves(sv.take(i as int), from@, to@),
        decreases slugs.len() - i,
    {
        assert(sv.take(i + 1).drop_last() =~= sv.take(i as int));
        let slug = slugs[i].as_str();
        if is_safe_slug(slug) {
            let item = MovePlanItem { slug: slug.to_owned(), src: join(from, slug), dst: join(to, slug) };
            let ghost before = item_views(plan@);
            plan.push(item);
            assert(item_views(plan@) =~= before.push(item_view(item)));
        }
        i = i + 1;
    }
    assert(sv.take(slugs.len() as int) =~= sv);
    plan
}

/// Every planned move has a safe slug and goes from the source root to the target
/// root under that slug.
pub proof fn planned_moves_are_safe(slugs: Seq<Seq<char>>, from: Seq<char>, to: Seq<char>)
    ensures
        forall|i: int|
            0 <= i < plan_moves(slugs, from, to).len() ==> {
                let m = #[trigger] plan_moves(slugs, from, to)[i];
                &&& spec_is_safe_slug(m.0)
                &&& m.1 == join_path(from, m.0)
                &&& m.2 == join_path(to, m.0)
            },
        plan_moves(slugs, from, to).len() <= slugs.len(),
    decreases slugs.len(),
{
    if slugs.len() > 0 {
        planned_moves_are_safe(slugs.drop_last(), from, to);
    }
}

proof fn lemma_plan_moves_members(slugs: Seq<Seq<char>>, from: Seq<char>, to: Seq<char>)
    ensures
        forall|i: int|
            0 <= i < plan_moves(slugs, from, to).len() ==> slugs.contains(
                (#[trigger] plan_moves(slugs, from, to)[i]).0,
            ),
        forall|j: int|
            0 <= j < slugs.len() && spec_is_safe_slug(#[trigger] slugs[j]) ==> plan_moves(
                slugs,
                from,
                to,
            ).contains((slugs[j], join_path(from, slugs[j]), join_path(to, slugs[j]))),
    decreases slugs.len(),
{
    if slugs.len() > 0 {
        let dl = slugs.drop_last();
        let r = plan_moves(dl, from, to);
        lemma_plan_moves_members(dl, from, to);
        let p = plan_moves(slugs, from, to);
        assert forall|i: int| 0 <= i < p.len() implies slugs.contains((#[trigger] p[i]).0) by {
            if i < r.len() {
                assert(p[i] == r[i]);
                let k = choose|k: int| 0 <= k < dl.len() && dl[k] == r[i].0;
                assert(slugs[k] == dl[k]);
            } else {
                assert(slugs[slugs.len() - 1] == p[i].0);
            }
        }
        assert forall|j: int|
            0 <= j < slugs.len() && spec_is_safe_slug(#[trigger] slugs[j]) implies p.contains(
            (slugs[j], join_path(from, slugs[j]), join_path(to, slugs[j])),
        ) by {
            let m = (slugs[j], join_path(from, slugs[j]), join_path(to, slugs[j]));
            if j < slugs.len() - 1 {
                assert(dl[j] == slugs[j]);
                let k = choose|k: int| 0 <= k < r.len() && r[k] == m;
                assert(p[k] == r[k]);
            } else {
                assert(p[p.len() - 1] == m);
            }
        }
    }
}

/// `plan` moves exactly the skills of `side` with a safe slug, each from `from` to
/// `to` under its slug.
pub open spec fn moves_exactly(
    plan: Seq<(Seq<char>, Seq<char>, Seq<char>)>,
    side: Seq<SkillEntry>,
    from: Seq<char>,
    to: Seq<char>,
) -> bool {
    &&& forall|i: int|
        0 <= i < plan.len() ==> {
            let m = #[trigger] plan[i];
            &&& exists|j: int| 0 <= j < side.len() && side[j].slug@ == m.0
            &&& m.1 == join_path(from, m.0)
            &&& m.2 == join_path(to, m.0)
        }
    &&& forall|j: int|
        0 <= j < side.len() && spec_is_safe_slug((#[trigger] side[j]).slug@) ==> plan.contains(
            (side[j].slug@, join_path(from, side[j].slug@), join_path(to, side[j].slug@)),
        )
}

/// Moving all visible skills takes them from the side they are listed on: disabling
/// moves the enabled skills from the enabled root to the disabled root, enabling
/// moves the disabled skills the other way.  Every such skill with a safe slug is
/// moved, and nothing else is.
pub proof fn all_visible_moves_the_listed_side(
    input: StartOperationInput,
    roots: RootsInfo,
    listed: ListSkillsOutput,
)
    requires
        input.mode == OperationMode::AllVisible,
    ensures
        input.direction == Direction::Disable ==> moves_exactly(
            plan_moves(
                source_slugs(input, listed),
                move_roots(input.direction, roots).0,
                move_roots(input.direction, roots).1,
            ),
            listed.enabled@,
            roots.enabled_root@,
            roots.disabled_root@,
        ),
        input.direction == Direction::Enable ==> moves_exactly(
            plan_moves(
                source_slugs(input, listed),
                move_roots(input.direction, roots).0,
                move_roots(input.direction, roots).1,
            ),
            listed.disabled@,
            roots.disabled_root@,
            roots.enabled_root@,
        ),
{
    let slugs = source_slugs(input, listed);
    let (from, to) = move_roots(input.direction, roots);
    let side = match input.direction {
        Direction::Disable => listed.enabled@,
        Direction::Enable => listed.disabled@,
    };
    assert(slugs == slugs_of_entries(side));
    lemma_plan_moves_members(slugs, from, to);
    planned_moves_are_safe(slugs, from, to);
    let plan = plan_moves(slugs, from, to);
    assert forall|i: int| 0 <= i < plan.len() implies {
        let m = #[trigger] plan[i];
        &&& exists|j: int| 0 <= j < side.len() && side[j].slug@ == m.0
        &&& m.1 == join_path(from, m.0)
        &&& m.2 == join_path(to, m.0)
    } by {
        let k = choose|k: int| 0 <= k < slugs.len() && slugs[k] == plan[i].0;
        assert(side[k].slug@ == slugs[k]);
    }
    assert forall|j: int| 0 <= j < side.len() && spec_is_safe_slug((#[trigger] side[j]).slug@) implies plan.contains(
        (side[j].slug@, join_path(from, side[j].slug@), join_path(to, side[j].slug@)),
    ) by {
        assert(slugs[j] == side[j].slug@);
    }
    assert(moves_exactly(plan, side, from, to));
}

} // verus!

