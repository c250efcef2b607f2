use vstd::prelude::*;

use crate::domain::ConflictAction;
use crate::paths::{file_name_of, join, join_path, parent_of, spec_file_name, spec_parent};
use crate::text::{chars_of, decimal, decimal_chars, push_all, string_from_chars};

verus! {

/// How one item of an operation ended.
#[derive(Debug, Clone, Copy, PartialEq, Eq)]
pub enum ItemOutcome {
    Done,
    Skipped,
    Failed,
}

/// The counts of a running operation over `total` planned items: items attempted,
/// done, failed and skipped, and whether it stopped on a cancel request.
#[derive(Debug, Clone, Copy)]
pub struct RunTally {
    pub total: usize,
    pub attempted: usize,
    pub ok: usize,
    pub error: usize,
    pub skipped: usize,
    pub cancelled: bool,
}

/// Every attempted item ended one way, no more items than planned were attempted,
/// and a cancel stopped the run before its end.
pub open spec fn tally_consistent(t: RunTally) -> bool {
    &&& t.ok + t.error + t.skipped == t.attempted
    &&& t.attempted <= t.total
    &&& t.cancelled ==> t.attempted < t.total
}

/// A fresh tally for `total` items.
pub fn new_tally(total: usize) -> (t: RunTally)
    ensures
        t == (RunTally { total, attempted: 0, ok: 0, error: 0, skipped: 0, cancelled: false }),
        tally_consistent(t),
{
    RunTally { total, attempted: 0, ok: 0, error: 0, skipped: 0, cancelled: false }
}

impl RunTally {
    /// Counts one more attempted item with its outcome.
    pub fn record(&mut self, outcome: ItemOutcome)
        requires
            tally_consistent(*old(self)),
            !old(self).cancelled,
            old(self).attempted < old(self).total,
        ensures
            tally_consistent(*final(self)),
            final(self).attempted == old(self).attempted + 1,
            final(self).ok == old(self).ok + if outcome == ItemOutcome::Done {
                1int
            } else {
                0int
            },
            final(self).error == old(self).error + if outcome == ItemOutcome::Failed {
                1int
            } else {
                0int
            },
            final(self).skipped == old(self).skipped + if outcome == ItemOutcome::Skipped {
                1int
            } else {
                0int
            },
            final(self).total == old(self).total,
            final(self).cancelled == old(self).cancelled,
    {
        self.attempted = self.attempted + 1;
        match outcome {
            ItemOutcome::Done => {
                self.ok = self.ok + 1;
            },
            ItemOutcome::Skipped => {
                self.skipped = self.skipped + 1;
            },
            ItemOutcome::Failed => {
                self.error = self.error + 1;
            },
        }
    }

    /// Stops the run on a cancel request, before the next item.
    pub fn stop_for_cancel(&mut self)
        requires
            tally_consistent(*old(self)),
            old(self).attempted < old(self).total,
        ensures
            tally_consistent(*final(self)),
            *final(self) == (RunTally { cancelled: true, ..*old(self) }),
    {
        self.cancelled = true;
    }
}

/// The status word of an item outcome in a move.
pub open spec fn spec_move_status(o: ItemOutcome) -> Seq<char> {
    match o {
        ItemOutcome::Done => "moved"@,
        ItemOutcome::Skipped => "skipped"@,
        ItemOutcome::Failed => "error"@,
    }
}

pub fn move_status(o: ItemOutcome) -> (r: String)
    ensures
        r@ == spec_move_status(o),
{
    match o {
        ItemOutcome::Done => "moved".to_owned(),
        ItemOutcome::Skipped => "skipped".to_owned(),
        ItemOutcome::Failed => "error".to_owned(),
    }
}

/// The closing log line of a move: `Done: OK=.. ERROR=.. SKIPPED=.. TOTAL=...`.
pub open spec fn spec_move_summary(t: RunTally) -> Seq<char> {
    "Done: OK="@ + decimal(t.ok as nat) + " ERROR="@ + decimal(t.error as nat) + " SKIPPED="@
        + decimal(t.skipped as nat) + " TOTAL="@ + decimal(t.total as nat) + "."@
}

pub fn move_summary_message(t: &RunTally) -> (r: String)
    ensures
        r@ == spec_move_summary(*t),
{
    let mut out: Vec<char> = Vec::new();
    push_all(&mut out, chars_of("Done: OK=").as_slice());
    push_all(&mut out, decimal_chars(t.ok as u128).as_slice());
    push_all(&mut out, chars_of(" ERROR=").as_slice());
    push_all(&mut out, decimal_chars(t.error as u128).as_slice());
    push_all(&mut out, chars_of(" SKIPPED=").as_slice());
    push_all(&mut out, decimal_chars(t.skipped as u128).as_slice());
    push_all(&mut out, chars_of(" TOTAL=").as_slice());
    push_all(&mut out, decimal_chars(t.total as u128).as_slice());
    push_all(&mut out, chars_of(".").as_slice());
    string_from_chars(out.as_slice())
}

/// The first step for one planned move: fail when the source is gone, ask the user
/// when the destination exists, else move.
#[derive(Debug, Clone, Copy, PartialEq, Eq)]
pub enum MoveAction {
    FailMissingSource,
    AskConflict,
    Move,
}

pub fn move_item_action(src_exists: bool, dst_exists: bool) -> (r: MoveAction)
    ensures
        r == if !src_exists {
            MoveAction::FailMissingSource
        } else if dst_exists {
            MoveAction::AskConflict
        } else {
            MoveAction::Move
        },
{
    if !src_exists {
        MoveAction::FailMissingSource
    } else if dst_exists {
        MoveAction::AskConflict
    } else {
        MoveAction::Move
    }
}

/// The error message of an item whose source is gone.
pub fn missing_source_message() -> (r: String)
    ensures
        r@ == "source path does not exist"@,
{
    "source path does not exist".to_owned()
}

/// The error message when the existing destination could not be removed.
pub fn overwrite_failure_message(detail: &str) -> (r: String)
    ensures
        r@ == "overwrite remove failed: "@ + detail@,
{
    let mut out = chars_of("overwrite remove failed: ");
    push_all(&mut out, chars_of(detail).as_slice());
    string_from_chars(out.as_slice())
}

/// What a conflict decision does to a move: skip the item, move it to a new name,
/// or remove the destination and move it there.
#[derive(Debug, Clone, Copy, PartialEq, Eq)]
pub enum ConflictStep {
    SkipItem,
    RenameThenMove,
    RemoveThenMove,
}

pub fn conflict_step(action: ConflictAction) -> (r: ConflictStep)
    ensures
        r == match action {
            ConflictAction::Skip => ConflictStep::SkipItem,
            ConflictAction::Rename => ConflictStep::RenameThenMove,
            ConflictAction::Overwrite => ConflictStep::RemoveThenMove,
        },
{
    match action {
        ConflictAction::Skip => ConflictStep::SkipItem,
        ConflictAction::Rename => ConflictStep::RenameThenMove,
        ConflictAction::Overwrite => ConflictStep::RemoveThenMove,
    }
}

/// A renamed destination next to `dst`: `name-stamp`, or `name-stamp-counter` from the
/// second try on, where `name` is the last component of `dst` (`skill` when it has
/// none) and the directory is its parent (`.` when it has none).
pub open spec fn spec_timestamp_candidate(dst: Seq<char>, stamp: Seq<char>, counter: Option<nat>) -> Seq<
    char,
> {
    let name = match spec_file_name(dst) {
        Some(n) => n,
        None => "skill"@,
    };
    let parent = match spec_parent(dst) {
        Some(p) => p,
        None => "."@,
    };
    join_path(
        parent,
        name + "-"@ + stamp + match counter {
            Some(c) => "-"@ + decimal(c),
            None => Seq::empty(),
        },
    )
}

pub fn timestamp_candidate(dst: &str, stamp: &str, counter: Option<usize>) -> (r: String)
    ensures
        r@ == spec_timestamp_candidate(
            dst@,
            stamp@,
            match counter {
                Some(c) => Some(c as nat),
                None => None,
            },
        ),
{
    let name = match file_name_of(dst) {
        Some(n) => n,
        None => "skill".to_owned(),
    };
    let parent = match parent_of(dst) {
        Some(p) => p,
        None => ".".to_owned(),
    };
    let mut leaf = chars_of(name.as_str());
    push_all(&mut leaf, chars_of("-").as_slice());
    push_all(&mut leaf, chars_of(stamp).as_slice());
    match counter {
        Some(c) => {
            push_all(&mut leaf, chars_of("-").as_slice());
            push_all(&mut leaf, decimal_chars(c as u128).as_slice());
        },
        None => {},
    }
    let leaf_s = string_from_chars(leaf.as_slice());
    join(parent.as_str(), leaf_s.as_str())
}

} // verus!
