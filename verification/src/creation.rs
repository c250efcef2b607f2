use vstd::prelude::*;

use crate::domain::{
    CreateSkillFromTemplateInput, ImportSkillMarkdownInput, PreparedSkill, issue_view, issue_views, IssueView, ValidateImportMarkdownInput, ValidateImportMarkdownOutput,
    ValidateTemplateInput, ValidateTemplateOutput, ValidationIssue, ValidationLevel,
};
use crate::executor::ItemOutcome;
use crate::paths::{join, join_path, parent_of, spec_parent};
use crate::skill_slug::{
    is_safe_slug, is_slug_alphabet, slugify, slugify_is_safe, slugify_is_well_formed, spec_is_safe_slug,
    spec_slugify,
};
use crate::text::{
    chars_of, contains_chars, is_ws, lemma_contains_infix, push_all, trim_end, lowercase_of, seq_contains, seq_starts_with, starts_with_chars,
    string_from_chars, to_lowercase, trim, trim_start, trim_start_chars, trimmed,
};

verus! {

pub open spec fn issue(level: ValidationLevel, code: Seq<char>, message: Seq<char>, field: Seq<char>) -> IssueView {
    IssueView { level, code, message, field: Some(field) }
}

pub open spec fn name_required() -> IssueView {
    issue(ValidationLevel::Error, "name_required"@, "Skill name is required."@, "name"@)
}

pub open spec fn instructions_required() -> IssueView {
    issue(
        ValidationLevel::Error,
        "instructions_required"@,
        "Main instructions are required."@,
        "instructions"@,
    )
}

pub open spec fn slug_required() -> IssueView {
    issue(ValidationLevel::Error, "slug_required"@, "Slug is required."@, "slug"@)
}

pub open spec fn slug_invalid() -> IssueView {
    issue(ValidationLevel::Error, "slug_invalid"@, "Slug contains invalid characters."@, "slug"@)
}

pub open spec fn description_recommended() -> IssueView {
    issue(
        ValidationLevel::Warning,
        "description_recommended"@,
        "Short description is recommended."@,
        "description"@,
    )
}

pub open spec fn file_empty() -> IssueView {
    issue(ValidationLevel::Error, "file_empty"@, "File is empty."@, "content"@)
}

pub open spec fn frontmatter_missing() -> IssueView {
    issue(
        ValidationLevel::Warning,
        "frontmatter_missing"@,
        "YAML frontmatter is recommended."@,
        "content"@,
    )
}

pub open spec fn purpose_missing() -> IssueView {
    issue(ValidationLevel::Info, "purpose_missing"@, "Section 'Purpose' is recommended."@, "content"@)
}

pub open spec fn examples_missing() -> IssueView {
    issue(
        ValidationLevel::Info,
        "examples_missing"@,
        "Section 'Examples' is recommended."@,
        "content"@,
    )
}

pub open spec fn when(cond: bool, i: IssueView) -> Seq<IssueView> {
    if cond {
        seq![i]
    } else {
        Seq::empty()
    }
}

/// The findings on a template form, in this order: a blank name, blank instructions,
/// a blank or unsafe slug (errors), a blank description (warning).
pub open spec fn template_issues(
    name: Seq<char>,
    slug: Seq<char>,
    description: Seq<char>,
    instructions: Seq<char>,
) -> Seq<IssueView> {
    when(trim(name).len() == 0, name_required()) + when(
        trim(instructions).len() == 0,
        instructions_required(),
    ) + (if trim(slug).len() == 0 {
        seq![slug_required()]
    } else {
        when(!spec_is_safe_slug(trim(slug)), slug_invalid())
    }) + when(trim(description).len() == 0, description_recommended())
}

/// Some finding is an error.
pub open spec fn spec_has_error(issues: Seq<IssueView>) -> bool {
    exists|i: int| 0 <= i < issues.len() && issues[i].level == ValidationLevel::Error
}

fn make_issue(level: ValidationLevel, code: &str, message: &str, field: &str) -> (r: ValidationIssue)
    ensures
        issue_view(r) == issue(level, code@, message@, field@),
{
    ValidationIssue {
        level,
        code: code.to_owned(),
        message: message.to_owned(),
        field: Some(field.to_owned()),
    }
}

fn has_error(issues: &Vec<ValidationIssue>) -> (r: bool)
    ensures
        r == spec_has_error(issue_views(issues@)),
{
    let mut i: usize = 0;
    while i < issues.len()
        invariant
            i <= issues.len(),
            forall|k: int| 0 <= k < i ==> issues@[k].level != ValidationLevel::Error,
        decreases issues.len() - i,
    {
        match issues[i].level {
            ValidationLevel::Error => {
                assert(issue_views(issues@)[i as int].level == ValidationLevel::Error);
                return true;
            },
            _ => {},
        }
        i = i + 1;
    }
    assert forall|k: int|
        0 <= k < issue_views(issues@).len() implies issue_views(issues@)[k].level
        != ValidationLevel::Error by {
        assert(issue_views(issues@)[k].level == issues@[k].level);
    }
    false
}

fn is_blank_str(s: &str) -> (b: bool)
    ensures
        b == (trim(s@).len() == 0),
{
    trimmed(&chars_of(s)).len() == 0
}

fn push_issue(issues: &mut Vec<ValidationIssue>, i: ValidationIssue)
    ensures
        issue_views(final(issues)@) == issue_views(old(issues)@).push(issue_view(i)),
{
    issues.push(i);
    assert(issue_views(issues@) =~= issue_views(old(issues)@).push(issue_view(i)));
}

fn template_issue_list(name: &str, slug: &str, description: &str, instructions: &str) -> (r: Vec<
    ValidationIssue,
>)
    ensures
        issue_views(r@) == template_issues(name@, slug@, description@, instructions@),
{
    let mut issues: Vec<ValidationIssue> = Vec::new();
    let ghost mut expected: Seq<IssueView> = Seq::empty();
    assert(issue_views(issues@) =~= expected);
    if is_blank_str(name) {
        push_issue(
            &mut issues,
            make_issue(ValidationLevel::Error, "name_required", "Skill name is required.", "name"),
        );
    }
    assert(issue_views(issues@) =~= when(trim(name@).len() == 0, name_required()));
    proof {
        expected = issue_views(issues@);
    }
    if is_blank_str(instructions) {
        push_issue(
            &mut issues,
            make_issue(
                ValidationLevel::Error,
                "instructions_required",
                "Main instructions are required.",
                "instructions",
            ),
        );
    }
    assert(issue_views(issues@) =~= expected + when(
        trim(instructions@).len() == 0,
        instructions_required(),
    ));
    proof {
        expected = issue_views(issues@);
    }
    let slug_trimmed = string_from_chars(trimmed(&chars_of(slug)).as_slice());
    if slug_trimmed.as_str().is_empty() {
        push_issue(
            &mut issues,
            make_issue(ValidationLevel::Error, "slug_required", "Slug is required.", "slug"),
        );
    } else if !is_safe_slug(slug_trimmed.as_str()) {
        push_issue(
            &mut issues,
            make_issue(
                ValidationLevel::Error,
                "slug_invalid",
                "Slug contains invalid characters.",
                "slug",
            ),
        );
    }
    assert(issue_views(issues@) =~= expected + (if trim(slug@).len() == 0 {
        seq![slug_required()]
    } else {
        when(!spec_is_safe_slug(trim(slug@)), slug_invalid())
    }));
    proof {
        expected = issue_views(issues@);
    }
    if is_blank_str(description) {
        push_issue(
            &mut issues,
            make_issue(
                ValidationLevel::Warning,
                "description_recommended",
                "Short description is recommended.",
                "description",
            ),
        );
    }
    assert(issue_views(issues@) =~= expected + when(
        trim(description@).len() == 0,
        description_recommended(),
    ));
    issues
}

/// Checks a template form (see `template_issues`); it may be submitted when no
/// finding is an error.
pub fn validate_template(input: &ValidateTemplateInput) -> (out: ValidateTemplateOutput)
    ensures
        issue_views(out.issues@) == template_issues(
            input.name@,
            input.slug@,
            input.description@,
            input.instructions@,
        ),
        out.can_submit == !spec_has_error(issue_views(out.issues@)),
{
    let issues = template_issue_list(
        input.name.as_str(),
        input.slug.as_str(),
        input.description.as_str(),
        input.instructions.as_str(),
    );
    let can_submit = !has_error(&issues);
    ValidateTemplateOutput { can_submit, issues }
}

/// The findings on a Markdown import, given the lower-cased content `lowered`: those
/// of the template form with the content as instructions and no description, then
/// an empty file (error), no `---` front matter (warning), no `# purpose` and no
/// `# examples` heading (notes).
pub open spec fn import_issues(
    name: Seq<char>,
    slug: Seq<char>,
    content: Seq<char>,
    lowered: Seq<char>,
) -> Seq<IssueView> {
    template_issues(name, slug, Seq::empty(), content) + when(trim(content).len() == 0, file_empty())
        + when(!seq_starts_with(trim_start(content), "---"@), frontmatter_missing()) + when(
        !seq_contains(lowered, "# purpose"@) && !seq_contains(lowered, "## purpose"@),
        purpose_missing(),
    ) + when(
        !seq_contains(lowered, "# examples"@) && !seq_contains(lowered, "## examples"@),
        examples_missing(),
    )
}

/// Checks a Markdown import whose content, lower-cased, is `lowered` (see
/// `import_issues`).
pub fn import_markdown_issues(input: &ValidateImportMarkdownInput, lowered: &str) -> (out:
    ValidateImportMarkdownOutput)
    ensures
        issue_views(out.issues@) == import_issues(
            input.name@,
            input.slug@,
            input.content@,
            lowered@,
        ),
        out.can_submit == !spec_has_error(issue_views(out.issues@)),
{
    let empty = String::new();
    let mut issues = template_issue_list(
        input.name.as_str(),
        input.slug.as_str(),
        empty.as_str(),
        input.content.as_str(),
    );
    let ghost mut expected = issue_views(issues@);
    let content = chars_of(input.content.as_str());
    if trimmed(&content).len() == 0 {
        push_issue(
            &mut issues,
            make_issue(ValidationLevel::Error, "file_empty", "File is empty.", "content"),
        );
    }
    assert(issue_views(issues@) =~= expected + when(
        trim(input.content@).len() == 0,
        file_empty(),
    ));
    proof {
        expected = issue_views(issues@);
    }
    let dashes = chars_of("---");
    if !starts_with_chars(&trim_start_chars(&content), dashes.as_slice()) {
        push_issue(
            &mut issues,
            make_issue(
                ValidationLevel::Warning,
                "frontmatter_missing",
                "YAML frontmatter is recommended.",
                "content",
            ),
        );
    }
    assert(issue_views(issues@) =~= expected + when(
        !seq_starts_with(trim_start(input.content@), "---"@),
        frontmatter_missing(),
    ));
    proof {
        expected = issue_views(issues@);
    }
    let lower = chars_of(lowered);
    if !contains_chars(&lower, chars_of("# purpose").as_slice()) && !contains_chars(
        &lower,
        chars_of("## purpose").as_slice(),
    ) {
        push_issue(
            &mut issues,
            make_issue(
                ValidationLevel::Info,
                "purpose_missing",
                "Section 'Purpose' is recommended.",
                "content",
            ),
        );
    }
    assert(issue_views(issues@) =~= expected + when(
        !seq_contains(lowered@, "# purpose"@) && !seq_contains(lowered@, "## purpose"@),
        purpose_missing(),
    ));
    proof {
        expected = issue_views(issues@);
    }
    if !contains_chars(&lower, chars_of("# examples").as_slice()) && !contains_chars(
        &lower,
        chars_of("## examples").as_slice(),
    ) {
        push_issue(
            &mut issues,
            make_issue(
                ValidationLevel::Info,
                "examples_missing",
                "Section 'Examples' is recommended.",
                "content",
            ),
        );
    }
    assert(issue_views(issues@) =~= expected + when(
        !seq_contains(lowered@, "# examples"@) && !seq_contains(lowered@, "## examples"@),
        examples_missing(),
    ));
    let can_submit = !has_error(&issues);
    ValidateImportMarkdownOutput { can_submit, issues }
}

/// Checks a Markdown import (see `import_issues`), matching section headings in the
/// content lower-cased by `str::to_lowercase`.
pub fn validate_import_markdown(input: &ValidateImportMarkdownInput) -> (out:
    ValidateImportMarkdownOutput)
    ensures
        issue_views(out.issues@) == import_issues(
            input.name@,
            input.slug@,
            input.content@,
            lowercase_of(input.content@),
        ),
        out.can_submit == !spec_has_error(issue_views(out.issues@)),
{
    let lowered = to_lowercase(input.content.as_str());
    import_markdown_issues(input, lowered.as_str())
}

/// The `SKILL.md` of a template skill: front matter with the slug, the description and
/// the `component` type, then the name as title, a Purpose section (the description,
/// or a placeholder when it is blank) and an Instructions section; every field trimmed.
pub open spec fn spec_render_template(
    name: Seq<char>,
    slug: Seq<char>,
    description: Seq<char>,
    instructions: Seq<char>,
) -> Seq<char> {
    "---\nname: "@ + trim(slug) + "\ndescription: "@ + trim(description)
        + "\ntype: component\n---\n\n# "@ + trim(name) + "\n\n## Purpose\n"@ + (if trim(
        description,
    ).len() == 0 {
        "Define what this skill should do."@
    } else {
        trim(description)
    }) + "\n\n## Instructions\n"@ + trim(instructions) + "\n"@
}

fn render_template_markdown(input: &CreateSkillFromTemplateInput) -> (r: String)
    ensures
        r@ == spec_render_template(
            input.name@,
            input.slug@,
            input.description@,
            input.instructions@,
        ),
{
    let slug = trimmed(&chars_of(input.slug.as_str()));
    let description = trimmed(&chars_of(input.description.as_str()));
    let name = trimmed(&chars_of(input.name.as_str()));
    let instructions = trimmed(&chars_of(input.instructions.as_str()));
    let mut out: Vec<char> = Vec::new();
    push_all(&mut out, chars_of("---\nname: ").as_slice());
    push_all(&mut out, slug.as_slice());
    push_all(&mut out, chars_of("\ndescription: ").as_slice());
    push_all(&mut out, description.as_slice());
    push_all(&mut out, chars_of("\ntype: component\n---\n\n# ").as_slice());
    push_all(&mut out, name.as_slice());
    push_all(&mut out, chars_of("\n\n## Purpose\n").as_slice());
    if description.len() == 0 {
        push_all(&mut out, chars_of("Define what this skill should do.").as_slice());
    } else {
        push_all(&mut out, description.as_slice());
    }
    push_all(&mut out, chars_of("\n\n## Instructions\n").as_slice());
    push_all(&mut out, instructions.as_slice());
    push_all(&mut out, chars_of("\n").as_slice());
    string_from_chars(out.as_slice())
}

/// The message of a refused template or import.
pub open spec fn template_refused() -> Seq<char> {
    "Template validation failed."@
}

pub open spec fn import_refused() -> Seq<char> {
    "Import validation failed."@
}

/// Prepares a skill from the template form: the slug is the slug of the trimmed slug
/// field; the form, with that slug, must pass `validate_template`; the content is
/// the rendered template.
pub fn prepare_template_creation(input: &CreateSkillFromTemplateInput) -> (r: Result<
    PreparedSkill,
    String,
>)
    ensures
        ({
            let slug = spec_slugify(trim(input.slug@));
            &&& r is Ok <==> !spec_has_error(
                template_issues(input.name@, slug, input.description@, input.instructions@),
            )
            &&& r matches Ok(p) ==> p.slug@ == slug && p.content@ == spec_render_template(
                input.name@,
                slug,
                input.description@,
                input.instructions@,
            )
            &&& r matches Err(e) ==> e@ == template_refused()
        }),
{
    let trimmed_slug = string_from_chars(trimmed(&chars_of(input.slug.as_str())).as_slice());
    let normalized = slugify(trimmed_slug.as_str());
    let form = ValidateTemplateInput {
        name: string_from_chars(chars_of(input.name.as_str()).as_slice()),
        slug: string_from_chars(chars_of(normalized.as_str()).as_slice()),
        description: string_from_chars(chars_of(input.description.as_str()).as_slice()),
        instructions: string_from_chars(chars_of(input.instructions.as_str()).as_slice()),
    };
    let validation = validate_template(&form);
    if !validation.can_submit {
        return Err("Template validation failed.".to_owned());
    }
    let normalized_input = CreateSkillFromTemplateInput {
        name: form.name,
        slug: form.slug,
        description: form.description,
        instructions: form.instructions,
    };
    let content = render_template_markdown(&normalized_input);
    Ok(PreparedSkill { slug: normalized, content })
}

/// Prepares a skill from a Markdown file: the slug is the slug of the trimmed slug
/// field; the import, with that slug, must pass `validate_import_markdown`; the
/// content is the file's content as it is.
pub fn prepare_import_creation(input: &ImportSkillMarkdownInput) -> (r: Result<
    PreparedSkill,
    String,
>)
    ensures
        ({
            let slug = spec_slugify(trim(input.slug@));
            &&& r is Ok <==> !spec_has_error(
                import_issues(input.name@, slug, input.content@, lowercase_of(input.content@)),
            )
            &&& r matches Ok(p) ==> p.slug@ == slug && p.content@ == input.content@
            &&& r matches Err(e) ==> e@ == import_refused()
        }),
{
    let trimmed_slug = string_from_chars(trimmed(&chars_of(input.slug.as_str())).as_slice());
    let normalized = slugify(trimmed_slug.as_str());
    let form = ValidateImportMarkdownInput {
        name: string_from_chars(chars_of(input.name.as_str()).as_slice()),
        slug: string_from_chars(chars_of(normalized.as_str()).as_slice()),
        content: string_from_chars(chars_of(input.content.as_str()).as_slice()),
    };
    let validation = validate_import_markdown(&form);
    if !validation.can_submit {
        return Err("Import validation failed.".to_owned());
    }
    Ok(PreparedSkill { slug: normalized, content: form.content })
}

/// Where a new skill goes when the user renames on conflict: `slug-stamp` next to the
/// taken destination (under `.` when it has no parent).
pub open spec fn spec_conflict_rename(dst: Seq<char>, slug: Seq<char>, stamp: Seq<char>) -> Seq<char> {
    join_path(
        match spec_parent(dst) {
            Some(p) => p,
            None => "."@,
        },
        slug + "-"@ + stamp,
    )
}

pub fn conflict_rename_destination(dst: &str, slug: &str, stamp: &str) -> (r: String)
    ensures
        r@ == spec_conflict_rename(dst@, slug@, stamp@),
{
    let parent = match parent_of(dst) {
        Some(p) => p,
        None => ".".to_owned(),
    };
    let mut leaf = chars_of(slug);
    push_all(&mut leaf, chars_of("-").as_slice());
    push_all(&mut leaf, chars_of(stamp).as_slice());
    let leaf_s = string_from_chars(leaf.as_slice());
    join(parent.as_str(), leaf_s.as_str())
}

/// The status word of a skill creation's outcome.
pub open spec fn spec_creation_status(o: ItemOutcome) -> Seq<char> {
    match o {
        ItemOutcome::Done => "success"@,
        ItemOutcome::Skipped => "skipped"@,
        ItemOutcome::Failed => "failed"@,
    }
}

pub fn creation_status(o: ItemOutcome) -> (r: String)
    ensures
        r@ == spec_creation_status(o),
{
    match o {
        ItemOutcome::Done => "success".to_owned(),
        ItemOutcome::Skipped => "skipped".to_owned(),
        ItemOutcome::Failed => "failed".to_owned(),
    }
}

/// A slug made by `slugify` never draws a slug finding: the template's findings are
/// then only those about its name, instructions and description.
pub proof fn slugified_slug_passes_validation(
    name: Seq<char>,
    raw_slug: Seq<char>,
    description: Seq<char>,
    instructions: Seq<char>,
)
    ensures
        template_issues(name, spec_slugify(raw_slug), description, instructions) == when(
            trim(name).len() == 0,
            name_required(),
        ) + when(trim(instructions).len() == 0, instructions_required()) + when(
            trim(description).len() == 0,
            description_recommended(),
        ),
{
    let s = spec_slugify(raw_slug);
    slugify_is_well_formed(raw_slug);
    slugify_is_safe(raw_slug);
    assert(is_slug_alphabet(s[0]));
    assert(is_slug_alphabet(s[s.len() - 1]));
    assert(!is_ws(s[0]));
    assert(!is_ws(s.last()));
    assert(trim_start(s) == s);
    assert(trim_end(s) == s);
    assert(trim(s) == s);
    let empty = Seq::<IssueView>::empty();
    assert(when(trim(name).len() == 0, name_required()) + when(
        trim(instructions).len() == 0,
        instructions_required(),
    ) + empty =~= when(trim(name).len() == 0, name_required()) + when(
        trim(instructions).len() == 0,
        instructions_required(),
    ));
}

/// The Purpose section of a template skill is its description, trimmed, whenever the
/// description is not blank; only a blank description gets the placeholder.
pub proof fn purpose_holds_the_description(
    name: Seq<char>,
    slug: Seq<char>,
    description: Seq<char>,
    instructions: Seq<char>,
)
    ensures
        trim(description).len() > 0 ==> seq_contains(
            spec_render_template(name, slug, description, instructions),
            "\n\n## Purpose\n"@ + trim(description) + "\n\n## Instructions\n"@,
        ),
        trim(description).len() == 0 ==> seq_contains(
            spec_render_template(name, slug, description, instructions),
            "\n\n## Purpose\n"@ + "Define what this skill should do."@ + "\n\n## Instructions\n"@,
        ),
        seq_contains(
            spec_render_template(name, slug, description, instructions),
            "\n\n## Instructions\n"@ + trim(instructions) + "\n"@,
        ),
{
    let head = "---\nname: "@ + trim(slug) + "\ndescription: "@ + trim(description)
        + "\ntype: component\n---\n\n# "@ + trim(name);
    let purpose = if trim(description).len() == 0 {
        "Define what this skill should do."@
    } else {
        trim(description)
    };
    let r = spec_render_template(name, slug, description, instructions);
    let mid = "\n\n## Purpose\n"@ + purpose + "\n\n## Instructions\n"@;
    assert(r =~= head + mid + (trim(instructions) + "\n"@));
    lemma_contains_infix(head, mid, trim(instructions) + "\n"@);
    let tail = "\n\n## Instructions\n"@ + trim(instructions) + "\n"@;
    assert(r =~= (head + "\n\n## Purpose\n"@ + purpose) + tail + Seq::<char>::empty());
    lemma_contains_infix(head + "\n\n## Purpose\n"@ + purpose, tail, Seq::<char>::empty());
}

} // verus!

