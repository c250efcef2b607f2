use vstd::prelude::*;

pub mod chunker;
pub mod extractor;
pub mod metadata;
pub mod scan;
pub mod skill_writer;
pub mod slug;
pub mod types;

use self::extractor::ExtractionOutput;
use self::metadata::{metadata_matches, structure_scannable, try_build_metadata, ExtractionMetadata};
use self::slug::{resolve_unique_skill_dir, slugify};
use self::types::{
    spec_error_message, ChunkOptions, PdfEngineError, PdfExtractionMode, PdfFileTask, SkillWriteInput,
};
use crate::paths::{file_stem_of, join_path, spec_file_stem};
use crate::skill_slug::{names_of, spec_slugify, spec_unique_name};
use crate::domain::{CancelPdfConversionOutput, PdfExtractionModeInput};
use crate::executor::{tally_consistent, RunTally};
use crate::operation_manager::{spec_try_start, OperationManager, OperationModeKind};
use crate::text::{chars_of, decimal, decimal_chars, push_all, str_eq, string_from_chars};

verus! {

/// The engine's extraction mode for the one chosen in the interface.
pub open spec fn spec_map_mode(mode: PdfExtractionModeInput) -> PdfExtractionMode {
    match mode {
        PdfExtractionModeInput::Technical => PdfExtractionMode::Technical,
        PdfExtractionModeInput::Text => PdfExtractionMode::Text,
    }
}

pub fn map_mode(mode: PdfExtractionModeInput) -> (r: PdfExtractionMode)
    ensures
        r == spec_map_mode(mode),
{
    match mode {
        PdfExtractionModeInput::Technical => PdfExtractionMode::Technical,
        PdfExtractionModeInput::Text => PdfExtractionMode::Text,
    }
}

/// The chunk budget of a conversion: the requested sizes, 1400 and 2000 tokens by
/// default.
pub fn chunk_options_from(target: Option<usize>, max: Option<usize>) -> (r: ChunkOptions)
    ensures
        r.target_chunk_tokens == match target {
            Some(t) => t,
            None => 1400,
        },
        r.max_chunk_tokens == match max {
            Some(m) => m,
            None => 2000,
        },
{
    ChunkOptions {
        target_chunk_tokens: match target {
            Some(t) => t,
            None => 1400,
        },
        max_chunk_tokens: match max {
            Some(m) => m,
            None => 2000,
        },
    }
}

pub open spec fn strings_view(v: Seq<String>) -> Seq<Seq<char>> {
    v.map_values(|s: String| s@)
}

/// A task is selected when its file name or its path is among the selected names.
pub open spec fn is_selected(task: PdfFileTask, selected: Seq<Seq<char>>) -> bool {
    selected.contains(task.file_name@) || selected.contains(task.absolute_path@)
}

pub open spec fn task_view(t: PdfFileTask) -> (Seq<char>, Seq<char>) {
    (t.file_name@, t.absolute_path@)
}

pub open spec fn task_views(v: Seq<PdfFileTask>) -> Seq<(Seq<char>, Seq<char>)> {
    v.map_values(|t: PdfFileTask| task_view(t))
}

/// The selected tasks, in order.
pub open spec fn selected_tasks(tasks: Seq<PdfFileTask>, selected: Seq<Seq<char>>) -> Seq<
    (Seq<char>, Seq<char>),
>
    decreases tasks.len(),
{
    if tasks.len() == 0 {
        Seq::empty()
    } else {
        let r = selected_tasks(tasks.drop_last(), selected);
        if is_selected(tasks.last(), selected) {
            r.push(task_view(tasks.last()))
        } else {
            r
        }
    }
}

fn contains_string(v: &Vec<String>, s: &String) -> (r: bool)
    ensures
        r == strings_view(v@).contains(s@),
{
    let mut i: usize = 0;
    while i < v.len()
        invariant
            i <= v.len(),
            forall|k: int| 0 <= k < i ==> v@[k]@ != s@,
        decreases v.len() - i,
    {
        if v[i] == *s {
            assert(strings_view(v@)[i as int] == s@);
            return true;
        }
        i = i + 1;
    }
    assert forall|k: int| 0 <= k < strings_view(v@).len() implies strings_view(v@)[k] != s@ by {
        assert(strings_view(v@)[k] == v@[k]@);
    }
    false
}

/// The tasks to convert: all of them when no selection (or an empty one) is given,
/// else those selected by file name or path.
pub fn with_selected_files(tasks: Vec<PdfFileTask>, selected_files: Option<Vec<String>>) -> (r: Vec<
    PdfFileTask,
>)
    ensures
        match selected_files {
            Some(sel) => if sel.len() == 0 {
                task_views(r@) == task_views(tasks@)
            } else {
                task_views(r@) == selected_tasks(tasks@, strings_view(sel@))
            },
            None => task_views(r@) == task_views(tasks@),
        },
{
    let selected = match selected_files {
        Some(sel) => sel,
        None => {
            return tasks;
        },
    };
    if selected.len() == 0 {
        return tasks;
    }
    let mut r: Vec<PdfFileTask> = Vec::new();
    let mut i: usize = 0;
    while i < tasks.len()
        invariant
            i <= tasks.len(),
            task_views(r@) == selected_tasks(tasks@.take(i as int), strings_view(selected@)),
        decreases tasks.len() - i,
    {
        assert(tasks@.take(i + 1).drop_last() =~= tasks@.take(i as int));
        let t = &tasks[i];
        if contains_string(&selected, &t.file_name) || contains_string(&selected, &t.absolute_path) {
            let copy = PdfFileTask { file_name: t.file_name.clone(), absolute_path: t.absolute_path.clone() };
            let ghost before = task_views(r@);
            r.push(copy);
            assert(task_views(r@) =~= before.push(task_view(tasks@[i as int])));
        }
        i = i + 1;
    }
    assert(tasks@.take(tasks.len() as int) =~= tasks@);
    r
}

/// The one PDF conversion that may run, and whether its cancel was requested.
pub struct PdfOperationRegistry {
    active: Option<String>,
    cancel_requested: bool,
}

impl View for PdfOperationRegistry {
    type V = (Option<Seq<char>>, bool);

    closed spec fn view(&self) -> (Option<Seq<char>>, bool) {
        (
            match self.active {
                Some(a) => Some(a@),
                None => None,
            },
            self.cancel_requested,
        )
    }
}

impl Default for PdfOperationRegistry {
    fn default() -> (r: Self)
        ensures
            r@ == (None::<Seq<char>>, false),
    {
        PdfOperationRegistry { active: None, cancel_requested: false }
    }
}

impl PdfOperationRegistry {
    fn is_active(&self, operation_id: &str) -> (r: bool)
        ensures
            r == (self@.0 == Some(operation_id@)),
    {
        match &self.active {
            Some(a) => str_eq(a.as_str(), operation_id),
            None => false,
        }
    }

    /// Whether the cancel of the running conversion was requested.
    pub fn is_cancelled(&self) -> (r: bool)
        ensures
            r == self@.1,
    {
        self.cancel_requested
    }

    /// Forgets conversion `operation_id` if it is the running one.
    pub fn clear(&mut self, operation_id: &str)
        ensures
            old(self)@.0 == Some(operation_id@) ==> final(self)@ == (None::<Seq<char>>, false),
            old(self)@.0 != Some(operation_id@) ==> final(self)@ == old(self)@,
    {
        if self.is_active(operation_id) {
            self.active = None;
            self.cancel_requested = false;
        }
    }
}

/// Requests the cancel of conversion `operation_id`; accepted only when it is the
/// running one.
pub fn cancel_pdf_conversion(registry: &mut PdfOperationRegistry, operation_id: &str) -> (r:
    CancelPdfConversionOutput)
    ensures
        r.accepted == (old(registry)@.0 == Some(operation_id@)),
        r.accepted ==> final(registry)@ == (old(registry)@.0, true),
        !r.accepted ==> final(registry)@ == old(registry)@,
{
    if registry.is_active(operation_id) {
        registry.cancel_requested = true;
        CancelPdfConversionOutput { accepted: true }
    } else {
        CancelPdfConversionOutput { accepted: false }
    }
}

/// The message when another operation is running.
pub open spec fn busy_message() -> Seq<char> {
    "another operation is already running"@
}

/// The message when another conversion is running.
pub open spec fn pdf_busy_message() -> Seq<char> {
    "another pdf conversion is already running"@
}

/// Registers conversion `operation_id` with the operation manager and as the running
/// conversion, or with neither.
pub fn begin_pdf_operation(
    manager: &mut OperationManager,
    registry: &mut PdfOperationRegistry,
    operation_id: &str,
) -> (r: Result<(), String>)
    ensures
        (r is Ok) <==> (old(manager)@ is None && old(registry)@.0 is None),
        r is Ok ==> final(manager)@ == spec_try_start(
            old(manager)@,
            operation_id@,
            OperationModeKind::PdfConversion,
        ) && final(registry)@ == (Some(operation_id@), false),
        r is Err ==> final(manager)@ == old(manager)@ && final(registry)@ == old(registry)@,
        r matches Err(e) ==> e@ == (if old(manager)@ is Some {
            busy_message()
        } else {
            pdf_busy_message()
        }),
{
    if !manager.try_start(operation_id, OperationModeKind::PdfConversion) {
        return Err("another operation is already running".to_owned());
    }
    if registry.active.is_some() {
        manager.finish_if_matches(operation_id);
        return Err("another pdf conversion is already running".to_owned());
    }
    registry.active = Some(operation_id.to_owned());
    registry.cancel_requested = false;
    Ok(())
}

/// `true` or `false`.
pub open spec fn bool_text(b: bool) -> Seq<char> {
    if b {
        "true"@
    } else {
        "false"@
    }
}

/// The closing log line of a conversion: `Finished: OK=.. FAIL=.. CANCELLED=..`.
pub open spec fn spec_pdf_summary(ok: nat, failed: nat, cancelled: bool) -> Seq<char> {
    "Finished: OK="@ + decimal(ok) + " FAIL="@ + decimal(failed) + " CANCELLED="@ + bool_text(
        cancelled,
    )
}

pub fn pdf_summary_message(ok: usize, failed: usize, cancelled: bool) -> (r: String)
    ensures
        r@ == spec_pdf_summary(ok as nat, failed as nat, cancelled),
{
    let mut out = chars_of("Finished: OK=");
    push_all(&mut out, decimal_chars(ok as u128).as_slice());
    push_all(&mut out, chars_of(" FAIL=").as_slice());
    push_all(&mut out, decimal_chars(failed as u128).as_slice());
    push_all(&mut out, chars_of(" CANCELLED=").as_slice());
    if cancelled {
        push_all(&mut out, chars_of("true").as_slice());
    } else {
        push_all(&mut out, chars_of("false").as_slice());
    }
    string_from_chars(out.as_slice())
}

/// The counts a conversion reports when it ends: documents converted, documents
/// failed, documents attempted (their sum, as a conversion skips none) and whether
/// it stopped on a cancel request.
pub fn pdf_outcome_counts(t: &RunTally) -> (r: (usize, usize, usize, bool))
    requires
        tally_consistent(*t),
        t.skipped == 0,
    ensures
        r == (t.ok, t.error, t.attempted, t.cancelled),
        r.2 == r.0 + r.1,
{
    (t.ok, t.error, t.attempted, t.cancelled)
}

/// The label of an extraction mode in the metadata.
pub open spec fn spec_mode_label(mode: PdfExtractionMode) -> Seq<char> {
    match mode {
        PdfExtractionMode::Technical => "technical"@,
        PdfExtractionMode::Text => "text"@,
    }
}

pub fn mode_label(mode: PdfExtractionMode) -> (r: String)
    ensures
        r@ == spec_mode_label(mode),
{
    match mode {
        PdfExtractionMode::Technical => "technical".to_owned(),
        PdfExtractionMode::Text => "text".to_owned(),
    }
}

/// What to do with one document of a conversion, once its extraction ran.
pub enum PdfItemPlan {
    /// The extraction failed: report `message` for `slug`.
    ExtractFailed { slug: String, message: String },
    /// Write `skill` (clearing its directory first when asked), with `metadata`
    /// beside it.
    Write { slug: String, clear_existing: bool, metadata: ExtractionMetadata, skill: SkillWriteInput },
}

/// The skill to write for a document: named after the slug of its file stem, titled
/// with the stem, in the first free directory of that slug under the skills root
/// (the slug's own when overwriting), over the extracted text.
pub open spec fn skill_input_matches(
    skill: SkillWriteInput,
    file_name: Seq<char>,
    path: Seq<char>,
    output: ExtractionOutput,
    tokens_human: Seq<char>,
    skills_root: Seq<char>,
    existing: Seq<Seq<char>>,
    overwrite: bool,
    options: ChunkOptions,
) -> bool {
    let slug = spec_slugify(spec_file_stem(path));
    &&& skill.slug@ == slug
    &&& skill.title@ == spec_file_stem(path)
    &&& skill.source_filename@ == file_name
    &&& skill.pages_or_sections == output.pages_estimate
    &&& skill.estimated_tokens_human@ == tokens_human
    &&& skill.full_text@ == output.full_text@
    &&& skill.destination_dir@ == join_path(skills_root, spec_unique_name(slug, overwrite, existing))
    &&& skill.chunk_options == options
}

/// Decides what to do with one document: report the extraction's failure, or write
/// its skill with its metadata.  `None` when the metadata scan cannot sample the
/// text (see `structure_scannable`).
pub fn plan_pdf_item(
    file_name: &str,
    path: &str,
    extracted: Result<ExtractionOutput, PdfEngineError>,
    mode: PdfExtractionMode,
    skills_root: &str,
    existing: &Vec<String>,
    overwrite: bool,
    options: ChunkOptions,
) -> (r: Option<PdfItemPlan>)
    ensures
        ({
            let slug = spec_slugify(spec_file_stem(path@));
            match extracted {
                Err(e) => r matches Some(PdfItemPlan::ExtractFailed { slug: s, message: m }) && s@ == slug
                    && m@ == spec_error_message(e),
                Ok(o) => {
                    &&& (r is Some <==> structure_scannable(o.full_text@))
                    &&& r matches Some(p) ==> p matches PdfItemPlan::Write {
                        slug: s,
                        clear_existing: c,
                        metadata: md,
                        skill: sk,
                    } && s@ == slug && c == overwrite && metadata_matches(
                        md,
                        file_name@,
                        spec_mode_label(mode),
                        o,
                    ) && skill_input_matches(
                        sk,
                        file_name@,
                        path@,
                        o,
                        md.estimated_tokens_human@,
                        skills_root@,
                        names_of(existing@),
                        overwrite,
                        options,
                    )
                },
            }
        }),
{
    let stem = file_stem_of(path);
    let slug = slugify(stem.as_str());
    match extracted {
        Err(e) => Some(PdfItemPlan::ExtractFailed { slug, message: e.message() }),
        Ok(output) => {
            let label = mode_label(mode);
            let metadata = match try_build_metadata(file_name, label.as_str(), &output) {
                Some(m) => m,
                None => {
                    return None;
                },
            };
            let skill_dir = resolve_unique_skill_dir(skills_root, slug.as_str(), overwrite, existing);
            let tokens_human = string_from_chars(chars_of(metadata.estimated_tokens_human.as_str()).as_slice());
            let title = string_from_chars(chars_of(stem.as_str()).as_slice());
            let skill_slug = string_from_chars(chars_of(slug.as_str()).as_slice());
            let skill = SkillWriteInput {
                slug: skill_slug,
                title,
                source_filename: file_name.to_owned(),
                pages_or_sections: output.pages_estimate,
                estimated_tokens_human: tokens_human,
                full_text: output.full_text,
                destination_dir: skill_dir,
                chunk_options: options,
            };
            Some(PdfItemPlan::Write { slug, clear_existing: overwrite, metadata, skill })
        },
    }
}

} // verus!

