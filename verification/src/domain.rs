use vstd::prelude::*;

verus! {

/// Where the skill folders live: the base directory and its two skill roots.
#[derive(Debug, Clone)]
pub struct RootsInfo {
    pub base: String,
    pub enabled_root: String,
    pub disabled_root: String,
}

/// How serious a validation finding is.
#[derive(Debug, Clone, Copy, PartialEq, Eq)]
pub enum ValidationLevel {
    Error,
    Warning,
    Info,
}

/// One validation finding: its level, a machine code, a message and the form field
/// it is about.
#[derive(Debug, Clone)]
pub struct ValidationIssue {
    pub level: ValidationLevel,
    pub code: String,
    pub message: String,
    pub field: Option<String>,
}

/// The fields of a skill created from the template.
#[derive(Debug, Clone)]
pub struct ValidateTemplateInput {
    pub name: String,
    pub slug: String,
    pub description: String,
    pub instructions: String,
}

/// The findings on a form, and whether it may be submitted (no error among them).
#[derive(Debug, Clone)]
pub struct ValidateTemplateOutput {
    pub can_submit: bool,
    pub issues: Vec<ValidationIssue>,
}

/// A skill to import from Markdown: its name, slug and file content.
#[derive(Debug, Clone)]
pub struct ValidateImportMarkdownInput {
    pub name: String,
    pub slug: String,
    pub content: String,
}

/// The findings on an import, and whether it may be submitted.
#[derive(Debug, Clone)]
pub struct ValidateImportMarkdownOutput {
    pub can_submit: bool,
    pub issues: Vec<ValidationIssue>,
}

/// A request to create a skill from the template.
#[derive(Debug, Clone)]
pub struct CreateSkillFromTemplateInput {
    pub name: String,
    pub slug: String,
    pub description: String,
    pub instructions: String,
}

/// A request to create a skill from a Markdown file's content.
#[derive(Debug, Clone)]
pub struct ImportSkillMarkdownInput {
    pub name: String,
    pub slug: String,
    pub content: String,
}

/// A validation finding as plain values.
pub struct IssueView {
    pub level: ValidationLevel,
    pub code: Seq<char>,
    pub message: Seq<char>,
    pub field: Option<Seq<char>>,
}

pub open spec fn opt_view(o: Option<String>) -> Option<Seq<char>> {
    match o {
        Some(s) => Some(s@),
        None => None,
    }
}

pub open spec fn issue_view(i: ValidationIssue) -> IssueView {
    IssueView { level: i.level, code: i.code@, message: i.message@, field: opt_view(i.field) }
}

pub open spec fn issue_views(issues: Seq<ValidationIssue>) -> Seq<IssueView> {
    issues.map_values(|i: ValidationIssue| issue_view(i))
}

/// A skill ready to be written: its directory slug and its `SKILL.md` content.
#[derive(Debug, Clone)]
pub struct PreparedSkill {
    pub slug: String,
    pub content: String,
}

/// What to do when the destination of a skill already exists.
#[derive(Debug, Clone, Copy, PartialEq, Eq)]
pub enum ConflictAction {
    Skip,
    Rename,
    Overwrite,
}

/// The user's answer to a conflict: the operation, the conflicting slug, the action,
/// whether it holds for the rest of the operation, and the slug typed to confirm an
/// overwrite.
#[derive(Debug, Clone)]
pub struct ResolveConflictInput {
    pub operation_id: String,
    pub slug: String,
    pub action: ConflictAction,
    pub apply_to_all: bool,
    pub overwrite_confirmation_slug: Option<String>,
}

/// A skill folder: its slug (the folder name) and its path.
#[derive(Debug, Clone)]
pub struct SkillEntry {
    pub slug: String,
    pub path: String,
}

/// What to list: whether to show hidden folders, and an optional name filter.
#[derive(Debug, Clone)]
pub struct ListSkillsInput {
    pub include_hidden: bool,
    pub filter: Option<String>,
}

/// The enabled and the disabled skills.
#[derive(Debug, Clone)]
pub struct ListSkillsOutput {
    pub enabled: Vec<SkillEntry>,
    pub disabled: Vec<SkillEntry>,
}

/// An entry of a directory as read from disk: its name, its path, and whether it is a
/// directory or a regular file.
#[derive(Debug, Clone)]
pub struct DirEntryInfo {
    pub name: String,
    pub path: String,
    pub is_dir: bool,
    pub is_file: bool,
}

/// Which way skills move: enabling moves them out of `skills_disabled`, disabling
/// into it.
#[derive(Debug, Clone, Copy, PartialEq, Eq)]
pub enum Direction {
    Enable,
    Disable,
}

/// Which skills a move takes: the listed slugs, or all visible ones.
#[derive(Debug, Clone, Copy, PartialEq, Eq)]
pub enum OperationMode {
    Selected,
    AllVisible,
}

/// A request to move skills.
#[derive(Debug, Clone)]
pub struct StartOperationInput {
    pub mode: OperationMode,
    pub direction: Direction,
    pub slugs: Option<Vec<String>>,
    pub include_hidden: bool,
    pub filter: Option<String>,
}

/// The extraction mode chosen in the interface.
#[derive(Debug, Clone, Copy, PartialEq, Eq)]
pub enum PdfExtractionModeInput {
    Technical,
    Text,
}

/// A request to convert the PDFs of a directory into skills.
#[derive(Debug, Clone)]
pub struct StartPdfConversionInput {
    pub directory: String,
    pub selected_files: Option<Vec<String>>,
    pub mode: PdfExtractionModeInput,
    pub overwrite: bool,
    pub target_chunk_tokens: Option<usize>,
    pub max_chunk_tokens: Option<usize>,
}

/// Whether a cancel request was accepted.
#[derive(Debug, Clone, Copy)]
pub struct CancelPdfConversionOutput {
    pub accepted: bool,
}

} // verus!
