use codex_skill_manager_desktop::conflict::ConflictCoordinator;
use codex_skill_manager_desktop::operation_manager::{begin_operation, OperationManager, OperationModeKind};

#[test]
fn manager_admits_one_operation_at_a_time() {
    let mut manager = OperationManager::default();
    assert!(manager.get_active().is_none());
    assert!(manager.try_start("a", OperationModeKind::SkillsMove));
    assert!(!manager.try_start("b", OperationModeKind::PdfConversion));
    let active = manager.get_active().expect("active");
    assert_eq!(active.operation_id, "a");
    assert_eq!(active.mode, OperationModeKind::SkillsMove);
    manager.finish_if_matches("b");
    assert!(manager.get_active().is_some());
    manager.finish_if_matches("a");
    assert!(manager.get_active().is_none());
    assert!(manager.try_start("b", OperationModeKind::PdfConversion));
}

#[test]
fn begin_operation_rolls_back_when_coordinator_busy() {
    let mut manager = OperationManager::default();
    let mut coordinator = ConflictCoordinator::default();
    assert!(coordinator.start_operation("other"));
    let err = begin_operation(&mut manager, &mut coordinator, "op", OperationModeKind::SkillCreation);
    assert_eq!(err, Err("another operation is already running".to_string()));
    assert!(manager.get_active().is_none());
    coordinator.finish_operation("other");
    assert_eq!(begin_operation(&mut manager, &mut coordinator, "op", OperationModeKind::SkillCreation), Ok(()));
    assert_eq!(manager.get_active().expect("active").operation_id, "op");
    assert!(coordinator.request_cancel("op"));
}
