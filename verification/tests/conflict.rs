use codex_skill_manager_desktop::conflict::ConflictCoordinator;
use codex_skill_manager_desktop::domain::{ConflictAction, ResolveConflictInput};

fn answer(op: &str, slug: &str, action: ConflictAction, all: bool, confirm: Option<&str>) -> ResolveConflictInput {
    ResolveConflictInput {
        operation_id: op.to_string(),
        slug: slug.to_string(),
        action,
        apply_to_all: all,
        overwrite_confirmation_slug: confirm.map(|s| s.to_string()),
    }
}

#[test]
fn supports_cancel_flag_for_active_operation() {
    let mut coordinator = ConflictCoordinator::default();
    assert!(coordinator.start_operation("op-1"));
    assert!(coordinator.request_cancel("op-1"));
    assert!(coordinator.is_cancel_requested("op-1"));
    coordinator.finish_operation("op-1");
}

#[test]
fn waits_and_resolves_conflict_with_apply_to_all() {
    let mut coordinator = ConflictCoordinator::default();
    assert!(coordinator.start_operation("op-2"));
    assert!(coordinator.wait_for_conflict_decision("op-2", "dup").is_none());
    assert!(coordinator.take_conflict_decision("op-2", "dup").is_none());

    let accepted = coordinator.resolve_conflict(answer("op-2", "dup", ConflictAction::Rename, true, None));
    assert!(accepted);

    let decision = coordinator.take_conflict_decision("op-2", "dup").expect("decision");
    assert!(matches!(decision.action, ConflictAction::Rename));
    assert!(decision.apply_to_all);
    coordinator.finish_operation("op-2");
}

#[test]
fn rejects_invalid_overwrite_confirmation() {
    let mut coordinator = ConflictCoordinator::default();
    assert!(coordinator.start_operation("op-3"));
    assert!(coordinator.wait_for_conflict_decision("op-3", "dup").is_none());

    let accepted = coordinator.resolve_conflict(answer("op-3", "dup", ConflictAction::Overwrite, false, Some("wrong")));
    assert!(!accepted);
    coordinator.finish_operation("op-3");
}

#[test]
fn overwrite_is_accepted_with_matching_confirmation() {
    let mut coordinator = ConflictCoordinator::default();
    assert!(coordinator.start_operation("op"));
    assert!(coordinator.wait_for_conflict_decision("op", "dup").is_none());
    assert!(!coordinator.resolve_conflict(answer("op", "dup", ConflictAction::Overwrite, false, None)));
    assert!(coordinator.resolve_conflict(answer("op", "dup", ConflictAction::Overwrite, false, Some("dup"))));
    let decision = coordinator.take_conflict_decision("op", "dup").expect("decision");
    assert!(matches!(decision.action, ConflictAction::Overwrite));
    assert_eq!(decision.overwrite_confirmation_slug.as_deref(), Some("dup"));
}

#[test]
fn apply_to_all_decision_answers_next_conflict_at_once() {
    let mut coordinator = ConflictCoordinator::default();
    assert!(coordinator.start_operation("op"));
    assert!(coordinator.wait_for_conflict_decision("op", "a").is_none());
    assert!(coordinator.resolve_conflict(answer("op", "a", ConflictAction::Skip, true, None)));
    assert!(coordinator.take_conflict_decision("op", "a").is_some());
    let next = coordinator.wait_for_conflict_decision("op", "b").expect("sticky decision");
    assert!(matches!(next.action, ConflictAction::Skip));
    assert_eq!(next.slug, "a");
}

#[test]
fn resolve_is_refused_for_other_operation_or_slug() {
    let mut coordinator = ConflictCoordinator::default();
    assert!(!coordinator.resolve_conflict(answer("op", "a", ConflictAction::Skip, false, None)));
    assert!(coordinator.start_operation("op"));
    assert!(coordinator.wait_for_conflict_decision("op", "a").is_none());
    assert!(!coordinator.resolve_conflict(answer("other", "a", ConflictAction::Skip, false, None)));
    assert!(!coordinator.resolve_conflict(answer("op", "b", ConflictAction::Skip, false, None)));
}

#[test]
fn finished_operation_skips_waiting_conflict() {
    let mut coordinator = ConflictCoordinator::default();
    assert!(coordinator.start_operation("op"));
    assert!(coordinator.wait_for_conflict_decision("op", "a").is_none());
    coordinator.finish_operation("op");
    let decision = coordinator.take_conflict_decision("op", "a").expect("skip");
    assert!(matches!(decision.action, ConflictAction::Skip));
    assert!(!decision.apply_to_all);
    assert_eq!(decision.slug, "a");
}

#[test]
fn cancel_and_start_are_bound_to_active_operation() {
    let mut coordinator = ConflictCoordinator::default();
    assert!(!coordinator.request_cancel("op"));
    assert!(coordinator.start_operation("op"));
    assert!(!coordinator.start_operation("second"));
    assert!(!coordinator.request_cancel("other"));
    assert!(!coordinator.is_cancel_requested("op"));
    assert!(coordinator.request_cancel("op"));
    assert!(!coordinator.is_cancel_requested("other"));
    coordinator.finish_operation("other");
    assert!(coordinator.is_cancel_requested("op"));
    coordinator.finish_operation("op");
    assert!(!coordinator.is_cancel_requested("op"));
    assert!(coordinator.start_operation("second"));
}
