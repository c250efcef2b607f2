use vstd::prelude::*;

use crate::paths::join_path;
use crate::skill_slug::{names_of, spec_slugify, spec_unique_name};

verus! {

/// The slug of a document title (see `skill_slug::slugify`).
pub fn slugify(input: &str) -> (r: String)
    ensures
        r@ == spec_slugify(input@),
{
    crate::skill_slug::slugify(input)
}

/// The directory a converted document goes to (see
/// `skill_slug::resolve_unique_skill_dir`).
pub fn resolve_unique_skill_dir(
    skills_root: &str,
    slug: &str,
    overwrite: bool,
    existing: &Vec<String>,
) -> (r: String)
    ensures
        r@ == join_path(skills_root@, spec_unique_name(slug@, overwrite, names_of(existing@))),
{
    crate::skill_slug::resolve_unique_skill_dir(skills_root, slug, overwrite, existing)
}

} // verus!
