use light_code::buffer::{Anchor, AnchorRange, Bias};
use light_code::document_ranges::LspFoldingRange;
use light_code::inlay_hints::Position;
use light_code::fetch_cache::{
    ServerResults, color_fetch_outcome, folding_fetch_outcome, FetchOutcome,
    cache_update, is_subset, plan_fetch, queried_servers, CacheState, CacheUpdate, FetchPlan,
    RunningFetchState,
};
use light_code::project_groups::{
    project_rows, rounded_corners, sidebar_rows, ProjectGroupEntry, ProjectRows, RoundedCorners, SidebarRow, Tiling,
    cycle_index, next_group, next_group_from_first, project_menu_state, workspace_for_group,
    workspace_info_message, workspace_label, WorkspaceChoice,
};

#[test]
fn cycling_wraps_around() {
    assert_eq!(cycle_index(2, 3, true), 0);
    assert_eq!(cycle_index(0, 3, false), 2);
    assert_eq!(cycle_index(1, 3, true), 2);
    assert_eq!(cycle_index(1, 3, false), 0);
}

#[test]
fn cycling_forward_then_back_returns() {
    for len in 1..5usize {
        for active in 0..len {
            for forward in [true, false] {
                let next = cycle_index(active, len, forward);
                assert_eq!(cycle_index(next, len, !forward), active);
            }
        }
    }
}

#[test]
fn next_group_from_the_active_key() {
    let keys = vec![10, 20, 30];
    assert_eq!(next_group(&keys, 20, true), Some(2));
    assert_eq!(next_group(&keys, 10, false), Some(2));
    assert_eq!(next_group(&keys, 99, true), Some(0));
    assert_eq!(next_group(&[].to_vec(), 1, true), None);
    assert_eq!(next_group_from_first(&keys, 99, true), Some(1));
    assert_eq!(next_group_from_first(&keys, 99, false), Some(2));
    assert_eq!(next_group_from_first(&keys, 30, true), Some(0));
}

#[test]
fn group_workspace_prefers_the_last_active_one() {
    assert_eq!(workspace_for_group(Some(7), &vec![1, 2], 2), Some(WorkspaceChoice::LastActive(7)));
    assert_eq!(workspace_for_group(None, &vec![1, 2, 2], 2), Some(WorkspaceChoice::Workspace(1)));
    assert_eq!(workspace_for_group(None, &vec![1], 2), None);
}

#[test]
fn menu_entries_follow_the_group_position() {
    let keys = vec![1, 2, 3];
    let first = project_menu_state(&keys, 1);
    assert!(!first.can_move_up && first.can_move_down && first.can_open_in_new_window);
    let last = project_menu_state(&keys, 3);
    assert!(last.can_move_up && !last.can_move_down);
    let missing = project_menu_state(&keys, 9);
    assert!(!missing.can_move_up && !missing.can_move_down);
    let single = project_menu_state(&vec![1], 1);
    assert!(!single.can_open_in_new_window && !single.can_move_up && !single.can_move_down);
}

#[test]
fn workspace_labels_join_worktree_names() {
    assert_eq!(workspace_label(&vec!["zed".to_string(), "docs".to_string()]), "zed, docs");
    assert_eq!(workspace_label(&vec![]), "Empty project");
    assert_eq!(workspace_label(&vec![String::new()]), "Empty project");
    assert_eq!(workspace_label(&vec![String::new(), String::new()]), ", ");
}

#[test]
fn workspace_info_counts_worktrees() {
    assert_eq!(workspace_info_message(0), "Local workspace with 0 worktree(s)");
    assert_eq!(workspace_info_message(12), "Local workspace with 12 worktree(s)");
}

#[test]
fn fetch_plans() {
    assert_eq!(plan_fetch(None), FetchPlan::Start { servers_to_query: None });
    let complete = CacheState { has_cache: true, version_current: true, missing_servers: None, running: None };
    assert_eq!(plan_fetch(Some(complete)), FetchPlan::UseCache);
    let missing = CacheState {
        has_cache: true,
        version_current: true,
        missing_servers: Some(vec![2]),
        running: Some(RunningFetchState { version_current: true, servers: vec![1, 2] }),
    };
    assert_eq!(plan_fetch(Some(missing)), FetchPlan::JoinRunning);
    let not_covered = CacheState {
        has_cache: true,
        version_current: true,
        missing_servers: Some(vec![3]),
        running: Some(RunningFetchState { version_current: true, servers: vec![1, 2] }),
    };
    assert_eq!(plan_fetch(Some(not_covered)), FetchPlan::Start { servers_to_query: Some(vec![3]) });
    let stale = CacheState {
        has_cache: true,
        version_current: false,
        missing_servers: None,
        running: Some(RunningFetchState { version_current: false, servers: vec![] }),
    };
    assert_eq!(plan_fetch(Some(stale)), FetchPlan::Start { servers_to_query: None });
    assert_eq!(queried_servers(&None, &vec![4, 5]), vec![4, 5]);
    assert_eq!(queried_servers(&Some(vec![5]), &vec![4, 5]), vec![5]);
    assert!(is_subset(&vec![], &vec![]));
    assert!(!is_subset(&vec![1], &vec![]));
}

#[test]
fn finished_fetch_updates() {
    assert_eq!(cache_update(true, true, true, true), CacheUpdate::Extend);
    assert_eq!(cache_update(true, true, false, true), CacheUpdate::Replace);
    assert_eq!(cache_update(true, true, false, false), CacheUpdate::Keep);
    assert_eq!(cache_update(false, true, true, true), CacheUpdate::Keep);
    assert_eq!(cache_update(true, false, true, true), CacheUpdate::Keep);
}

#[test]
fn sidebar_lists_workspaces_of_groups_with_several() {
    let groups = vec![
        ProjectGroupEntry { key: 1, workspaces: vec![10] },
        ProjectGroupEntry { key: 2, workspaces: vec![20, 21] },
    ];
    let rows = sidebar_rows(&groups, 2, 21);
    assert_eq!(
        rows,
        vec![
            SidebarRow::Group { index: 0, active: false },
            SidebarRow::Group { index: 1, active: true },
            SidebarRow::Workspace { group_index: 1, workspace_index: 0, element_id: 1000, active: false },
            SidebarRow::Workspace { group_index: 1, workspace_index: 1, element_id: 1001, active: true },
        ]
    );
    assert!(sidebar_rows(&vec![], 0, 0).is_empty());
}

#[test]
fn sidebar_corners_follow_side_and_tiling() {
    let free = Tiling { top: false, left: false, right: false, bottom: false };
    assert_eq!(
        rounded_corners(true, Some(free)),
        RoundedCorners { top_left: true, bottom_left: true, top_right: false, bottom_right: false }
    );
    let tiled_top = Tiling { top: true, ..free };
    assert_eq!(
        rounded_corners(false, Some(tiled_top)),
        RoundedCorners { top_left: false, bottom_left: false, top_right: false, bottom_right: true }
    );
    assert_eq!(
        rounded_corners(true, None),
        RoundedCorners { top_left: false, bottom_left: false, top_right: false, bottom_right: false }
    );
}

#[test]
fn launch_arguments() {
    use_launch();
}

fn use_launch() {
    let args = vec!["-n".to_string(), "src".to_string(), "--printenv".to_string(), String::new()];
    assert!(light_code::launch::wants_printenv(&args));
    assert!(!light_code::launch::wants_printenv(&vec!["--printenvx".to_string()]));
    assert_eq!(light_code::launch::launch_path_arguments(args), vec!["src".to_string(), String::new()]);
}

#[test]
fn header_and_title() {
    let controls = light_code::project_groups::header_window_controls(false, false, false, true);
    assert!(controls.left && !controls.right);
    let mac = light_code::project_groups::header_window_controls(true, false, false, true);
    assert!(!mac.left && !mac.right);
    assert_eq!(light_code::project_groups::title_bar_label(false), Some("Light Code"));
    assert_eq!(light_code::project_groups::title_bar_label(true), None);
}

#[test]
fn cached_results_follow_updates() {
    let mut cache: ServerResults<Vec<u32>> = ServerResults::new();
    cache.apply_update(CacheUpdate::Extend, vec![(1, vec![10]), (2, vec![20])], vec![1, 2]);
    assert_eq!(cache.results.get(&1), Some(&vec![10]));
    assert!(cache.fetched_servers.contains(&2));
    cache.apply_update(CacheUpdate::Extend, vec![(1, vec![11])], vec![1, 3]);
    assert_eq!(cache.results.get(&1), Some(&vec![11]));
    assert_eq!(cache.results.get(&2), Some(&vec![20]));
    assert!(cache.fetched_servers.contains(&3));
    cache.apply_update(CacheUpdate::Keep, vec![(9, vec![90])], vec![9]);
    assert!(cache.results.get(&9).is_none());
    cache.evict(Some(2));
    assert!(cache.results.get(&2).is_none());
    assert!(!cache.fetched_servers.contains(&2));
    cache.apply_update(CacheUpdate::Replace, vec![(4, vec![40])], vec![4]);
    assert_eq!(cache.results.len(), 1);
    assert_eq!(cache.fetched_servers.len(), 1);
    cache.evict(None);
    assert!(cache.results.is_empty() && cache.fetched_servers.is_empty());
}

#[test]
fn fetch_outcomes() {
    assert_eq!(color_fetch_outcome(false, false, true, true, true, true), FetchOutcome::Failed);
    assert_eq!(color_fetch_outcome(true, true, true, true, true, true), FetchOutcome::Outdated);
    assert_eq!(color_fetch_outcome(true, false, true, true, false, true), FetchOutcome::Updated(CacheUpdate::Replace));
    assert_eq!(folding_fetch_outcome(true, true, true, true, true), FetchOutcome::Updated(CacheUpdate::Extend));
    assert_eq!(folding_fetch_outcome(false, true, true, true, true), FetchOutcome::Failed);
}

#[test]
fn complete_color_cache_answers_with_every_servers_colors() {
    let mut cache: ServerResults<Vec<u32>> = ServerResults::new();
    cache.apply_update(CacheUpdate::Replace, vec![(1, vec![10, 11]), (2, vec![20]), (3, vec![])], vec![1, 2, 3]);
    let mut all: Vec<u32> = cache.cached_values().into_iter().copied().collect();
    all.sort();
    assert_eq!(all, vec![10, 11, 20]);
    let first_of_one = cache.cached_values().iter().position(|v| **v == 10).unwrap();
    let second_of_one = cache.cached_values().iter().position(|v| **v == 11).unwrap();
    assert_eq!(second_of_one, first_of_one + 1);
    let empty: ServerResults<Vec<u32>> = ServerResults::new();
    assert!(empty.cached_values().is_empty());
}

#[test]
fn complete_folding_cache_answers_sorted_by_start() {
    let fold = |line: u32, text: &str| LspFoldingRange {
        range: AnchorRange {
            start: Anchor { point: Position { line, character: 0 }, bias: Bias::Right },
            end: Anchor { point: Position { line: line + 1, character: 0 }, bias: Bias::Left },
        },
        collapsed_text: Some(text.to_string()),
    };
    let mut cache: ServerResults<Vec<LspFoldingRange>> = ServerResults::new();
    cache.apply_update(
        CacheUpdate::Replace,
        vec![(1, vec![fold(7, "a"), fold(2, "b")]), (2, vec![fold(4, "c"), fold(2, "d")])],
        vec![1, 2],
    );
    let sorted = cache.cached_folding_ranges();
    let starts: Vec<u32> = sorted.iter().map(|f| f.range.start.point.line).collect();
    assert_eq!(starts, vec![2, 2, 4, 7]);
    let mut texts: Vec<&str> = sorted.iter().map(|f| f.collapsed_text.as_deref().unwrap()).collect();
    texts.sort();
    assert_eq!(texts, vec!["a", "b", "c", "d"]);
}

#[test]
fn project_sidebar_rows_mark_the_active_group() {
    let rows = project_rows(&vec![4, 9, 4, 2], 4);
    assert_eq!(rows, ProjectRows { active: vec![true, false, true, false], show_placeholder: false });
    let none = project_rows(&vec![3], 8);
    assert_eq!(none.active, vec![false]);
    assert_eq!(project_rows(&Vec::new(), 1), ProjectRows { active: vec![], show_placeholder: true });
}
