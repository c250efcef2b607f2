use codex_skill_manager_desktop::domain::ConflictAction;
use codex_skill_manager_desktop::executor::{
    conflict_step, missing_source_message, move_item_action, move_status, move_summary_message,
    new_tally, overwrite_failure_message, timestamp_candidate, ConflictStep,
    ItemOutcome, MoveAction,
};

#[test]
fn tally_counts_each_outcome() {
    let mut t = new_tally(4);
    t.record(ItemOutcome::Done);
    t.record(ItemOutcome::Done);
    t.record(ItemOutcome::Failed);
    t.record(ItemOutcome::Skipped);
    assert_eq!(t.attempted, 4);
    assert_eq!((t.ok, t.error, t.skipped), (2, 1, 1));
    assert!(!t.cancelled);
    assert_eq!(move_summary_message(&t), "Done: OK=2 ERROR=1 SKIPPED=1 TOTAL=4.");
}

#[test]
fn cancel_stops_the_tally() {
    let mut t = new_tally(3);
    t.record(ItemOutcome::Done);
    t.stop_for_cancel();
    assert!(t.cancelled);
    assert_eq!(t.attempted, 1);
    assert_eq!(move_summary_message(&t), "Done: OK=1 ERROR=0 SKIPPED=0 TOTAL=3.");
}

#[test]
fn status_words_and_messages() {
    assert_eq!(move_status(ItemOutcome::Done), "moved");
    assert_eq!(move_status(ItemOutcome::Skipped), "skipped");
    assert_eq!(move_status(ItemOutcome::Failed), "error");
    assert_eq!(missing_source_message(), "source path does not exist");
    assert_eq!(overwrite_failure_message("busy"), "overwrite remove failed: busy");
}

#[test]
fn move_actions_follow_disk_state() {
    assert_eq!(move_item_action(false, true), MoveAction::FailMissingSource);
    assert_eq!(move_item_action(true, true), MoveAction::AskConflict);
    assert_eq!(move_item_action(true, false), MoveAction::Move);
    assert_eq!(conflict_step(ConflictAction::Skip), ConflictStep::SkipItem);
    assert_eq!(conflict_step(ConflictAction::Rename), ConflictStep::RenameThenMove);
    assert_eq!(conflict_step(ConflictAction::Overwrite), ConflictStep::RemoveThenMove);
}

#[test]
fn timestamp_candidates_sit_next_to_the_destination() {
    assert_eq!(
        timestamp_candidate("/s/skills/alpha", "20240101-120000", None),
        "/s/skills/alpha-20240101-120000"
    );
    assert_eq!(
        timestamp_candidate("/s/skills/alpha", "20240101-120000", Some(2)),
        "/s/skills/alpha-20240101-120000-2"
    );
    assert_eq!(timestamp_candidate("alpha", "t", None), "alpha-t");
    assert_eq!(timestamp_candidate("/", "t", None), "./skill-t");
}

#[test]
fn timestamp_candidate_ignores_a_trailing_separator() {
    assert_eq!(timestamp_candidate("a/b/", "s", None), "a/b-s");
}
