use codex_skill_manager_desktop::domain::{
    Direction, ListSkillsOutput, OperationMode, RootsInfo, SkillEntry, StartOperationInput,
};
use codex_skill_manager_desktop::planner::build_plan;

fn roots() -> RootsInfo {
    RootsInfo {
        base: "/home/u/.codex".to_string(),
        enabled_root: "/home/u/.codex/skills".to_string(),
        disabled_root: "/home/u/.codex/skills_disabled".to_string(),
    }
}

fn entry(slug: &str, root: &str) -> SkillEntry {
    SkillEntry { slug: slug.to_string(), path: format!("{root}/{slug}") }
}

fn listed() -> ListSkillsOutput {
    ListSkillsOutput {
        enabled: vec![entry("alpha", "/home/u/.codex/skills"), entry("beta", "/home/u/.codex/skills")],
        disabled: vec![entry("gamma", "/home/u/.codex/skills_disabled")],
    }
}

#[test]
fn selected_slugs_are_planned_and_unsafe_ones_dropped() {
    let input = StartOperationInput {
        mode: OperationMode::Selected,
        direction: Direction::Disable,
        slugs: Some(vec!["alpha".to_string(), "../etc".to_string(), "beta".to_string()]),
        include_hidden: false,
        filter: None,
    };
    let plan = build_plan(&input, &roots(), &listed());
    assert_eq!(plan.len(), 2);
    assert_eq!(plan[0].slug, "alpha");
    assert_eq!(plan[0].src, "/home/u/.codex/skills/alpha");
    assert_eq!(plan[0].dst, "/home/u/.codex/skills_disabled/alpha");
    assert_eq!(plan[1].slug, "beta");
}

#[test]
fn selected_mode_without_slugs_plans_nothing() {
    let input = StartOperationInput {
        mode: OperationMode::Selected,
        direction: Direction::Enable,
        slugs: None,
        include_hidden: false,
        filter: None,
    };
    assert!(build_plan(&input, &roots(), &listed()).is_empty());
}

#[test]
fn all_visible_enable_moves_the_disabled_listing() {
    let input = StartOperationInput {
        mode: OperationMode::AllVisible,
        direction: Direction::Enable,
        slugs: Some(vec!["ignored".to_string()]),
        include_hidden: true,
        filter: None,
    };
    let plan = build_plan(&input, &roots(), &listed());
    assert_eq!(plan.len(), 1);
    assert_eq!(plan[0].slug, "gamma");
    assert_eq!(plan[0].src, "/home/u/.codex/skills_disabled/gamma");
    assert_eq!(plan[0].dst, "/home/u/.codex/skills/gamma");
}
