use worktree_dashboard::app::{App, RepoPrs, merge_worktree_lists};
use worktree_dashboard::collections::{PathMap, TextMap};
use worktree_dashboard::navigation::plan_open;
use worktree_dashboard::types::{AgentPane, DashboardTab, FetchRequest, FetchScope, JumpRequest, MuxMode, PrSummary, ProjectEntry, SetupFlags, TableState, WorktreeInfo, WorktreeSortMode};

fn worktree(branch: &str, path: &str) -> WorktreeInfo {
    WorktreeInfo {
        branch: branch.to_string(),
        path: path.to_string(),
        handle: path.rsplit('/').next().unwrap_or("").to_string(),
        is_main: false,
        mode: MuxMode::Window,
        has_mux_window: true,
        has_unmerged: true,
        pr_info: None,
        created_at: None,
        base_branch: None,
    }
}

fn dashboard(worktrees: Vec<WorktreeInfo>) -> App {
    App {
        active_tab: DashboardTab::Worktrees,
        agents: Vec::new(),
        table_state: TableState { selected: None },
        all_agents: Vec::new(),
        worktrees: worktrees.clone(),
        worktree_table_state: TableState { selected: None },
        selected_worktree_path: None,
        all_worktrees: worktrees,
        worktree_filter_text: String::new(),
        worktree_sort_mode: WorktreeSortMode::Natural,
        pr_statuses: Vec::new(),
        git_statuses: PathMap::new(),
        repo_roots: Vec::new(),
        worktree_project_override: None,
        worktree_all_projects: false,
        current_worktree: None,
        window_prefix: "wm-".to_string(),
        is_worktree_fetching: false,
        last_worktree_fetch: 0,
        worktree_preview_path: None,
        worktree_preview: None,
        pending_remove: None,
        pending_sweep: None,
        sweep_progress: None,
        pending_project_picker: None,
        pending_base_picker: None,
        pending_add_worktree: None,
        status_message: None,
        should_jump: false,
    }
}

fn three() -> App {
    dashboard(vec![
        worktree("one", "/p/one"),
        worktree("two", "/p/two"),
        worktree("three", "/p/three"),
    ])
}

fn branches(app: &App) -> Vec<&str> {
    app.worktrees.iter().map(|w| w.branch.as_str()).collect()
}

#[test]
fn refetch_timer_is_set_back_a_minute() {
    let mut app = three();
    app.trigger_worktree_refetch(100_000);
    assert_eq!(app.last_worktree_fetch, 40_000);
}

#[test]
fn switching_tabs_fetches_on_the_worktree_tab_alone() {
    let mut app = three();
    assert!(app.switch_tab(7).is_none());
    assert_eq!(app.active_tab, DashboardTab::Agents);
    assert_eq!(app.last_worktree_fetch, 0);
    match app.switch_tab(8) {
        Some(FetchRequest { scope: FetchScope::Project(None), .. }) => {}
        other => panic!("{:?}", other),
    }
    assert_eq!(app.active_tab, DashboardTab::Worktrees);
    assert_eq!(app.last_worktree_fetch, 8);
    assert!(app.is_worktree_fetching);
}

#[test]
fn one_fetch_at_a_time() {
    let mut app = three();
    app.worktree_project_override = Some(("p".to_string(), "/p".to_string()));
    match app.spawn_worktree_fetch() {
        Some(request) => {
            assert!(!request.fetch_pr_status);
            assert!(request.filter.is_empty());
            assert!(matches!(request.scope, FetchScope::Project(Some(path)) if path == "/p"));
        }
        other => panic!("{:?}", other),
    }
    assert!(app.spawn_worktree_fetch().is_none());
    app.finish_worktree_fetch();
    assert!(app.spawn_worktree_fetch().is_some());
}

#[test]
fn all_projects_are_fetched_in_path_order_and_once() {
    let mut app = three();
    app.worktree_all_projects = true;
    for path in ["/w/b/", "/w/a-x", "/w/a/y", "/w//b", "/w/a", "/w/a/.", "/w/b"] {
        app.repo_roots.push(ProjectEntry {
            name: "n".to_string(),
            path: path.to_string(),
        });
    }
    match app.spawn_worktree_fetch() {
        Some(FetchRequest { scope: FetchScope::AllProjects(roots), fetch_pr_status: false, .. }) => {
            let mut expected: Vec<std::path::PathBuf> = ["/w/b/", "/w/a-x", "/w/a/y", "/w//b", "/w/a", "/w/a/.", "/w/b"]
                .iter()
                .map(std::path::PathBuf::from)
                .collect();
            expected.sort();
            expected.dedup();
            let got: Vec<std::path::PathBuf> = roots.iter().map(std::path::PathBuf::from).collect();
            assert_eq!(got, expected);
            assert_eq!(roots, vec!["/w/a", "/w/a/y", "/w/a-x", "/w/b/"]);
        }
        other => panic!("{:?}", other),
    }
}

#[test]
fn a_failed_root_does_not_take_down_the_rest() {
    let merged = merge_worktree_lists(vec![
        Some(vec![worktree("a", "/a")]),
        None,
        Some(vec![worktree("b", "/b"), worktree("c", "/c")]),
    ]);
    let names: Vec<&str> = merged.iter().map(|w| w.branch.as_str()).collect();
    assert_eq!(names, vec!["a", "b", "c"]);
}

#[test]
fn next_and_previous_go_round() {
    let mut app = three();
    app.worktree_table_state.selected = Some(2);
    assert_eq!(app.worktree_next(), Some("/p/one".to_string()));
    assert_eq!(app.worktree_table_state.selected, Some(0));
    assert_eq!(app.selected_worktree_path.as_deref(), Some("/p/one"));
    assert_eq!(app.worktree_previous(), Some("/p/three".to_string()));
    assert_eq!(app.worktree_table_state.selected, Some(2));
    for _ in 0..3 {
        app.worktree_next();
    }
    assert_eq!(app.worktree_table_state.selected, Some(2));
}

#[test]
fn navigation_without_a_selection() {
    let mut app = three();
    app.worktree_next();
    assert_eq!(app.worktree_table_state.selected, Some(1));
    let mut app = three();
    app.worktree_previous();
    assert_eq!(app.worktree_table_state.selected, Some(2));
    let mut empty = dashboard(Vec::new());
    assert!(empty.worktree_next().is_none());
    assert!(empty.worktree_previous().is_none());
    assert_eq!(empty.worktree_table_state.selected, None);
}

#[test]
fn a_stale_selection_steps_back_out_of_the_list() {
    let mut app = three();
    app.worktree_table_state.selected = Some(9);
    app.worktree_previous();
    assert_eq!(app.worktree_table_state.selected, Some(8));
    assert_eq!(app.selected_worktree_path, None);
    app.worktree_next();
    assert_eq!(app.worktree_table_state.selected, Some(0));
}

#[test]
fn preview_is_requested_once_per_row() {
    let mut app = three();
    app.worktree_table_state.selected = Some(1);
    app.worktree_preview = Some("old".to_string());
    assert_eq!(app.update_worktree_preview(), Some("/p/two".to_string()));
    assert_eq!(app.worktree_preview, None);
    app.worktree_preview = Some("log".to_string());
    assert_eq!(app.update_worktree_preview(), None);
    assert_eq!(app.worktree_preview.as_deref(), Some("log"));
}

#[test]
fn filter_looks_at_handle_and_branch_without_case() {
    let mut app = dashboard(vec![
        worktree("Feature/Login", "/p/x"),
        worktree("fix", "/p/LOGIN-page"),
        worktree("other", "/p/y"),
    ]);
    app.worktree_filter_text = "lOgIn".to_string();
    app.apply_worktree_filters();
    assert_eq!(branches(&app), vec!["Feature/Login", "fix"]);
    app.worktree_filter_text = String::new();
    app.apply_worktree_filters();
    assert_eq!(app.worktrees.len(), 3);
}

#[test]
fn filter_follows_unicode_case() {
    let mut app = dashboard(vec![worktree("ÄRGER", "/p/x"), worktree("b", "/p/y")]);
    app.worktree_filter_text = "ärger".to_string();
    app.apply_worktree_filters();
    assert_eq!(branches(&app), vec!["ÄRGER"]);
}

#[test]
fn age_sorts_newest_first_and_keeps_ties() {
    let mut list = Vec::new();
    for (name, at) in [
        ("old", Some(1)),
        ("none1", None),
        ("new", Some(9)),
        ("tie1", Some(5)),
        ("none2", None),
        ("tie2", Some(5)),
    ] {
        let mut w = worktree(name, &format!("/p/{}", name));
        w.created_at = at;
        list.push(w);
    }
    let mut app = dashboard(list);
    let (mode, _) = app.cycle_worktree_sort_mode();
    assert_eq!(mode, WorktreeSortMode::Age);
    assert_eq!(
        branches(&app),
        vec!["new", "tie1", "tie2", "old", "none1", "none2"]
    );
    let (mode, _) = app.cycle_worktree_sort_mode();
    assert_eq!(mode, WorktreeSortMode::Natural);
    assert_eq!(branches(&app)[0], "old");
}

#[test]
fn pull_requests_fill_gaps_but_not_on_main() {
    let pr = |n: u32| PrSummary {
        number: n,
        title: "t".to_string(),
        state: "OPEN".to_string(),
    };
    let mut own = worktree("own", "/p/own");
    own.pr_info = Some(pr(1));
    let mut main = worktree("main", "/p/main");
    main.is_main = true;
    let mut app = dashboard(vec![own, main, worktree("gap", "/p/gap"), worktree("no", "/p/no")]);
    for number in [10, 20] {
        let mut prs = TextMap::new();
        for branch in ["own", "main", "gap"] {
            prs.insert(branch.to_string(), pr(number));
        }
        app.pr_statuses.push(RepoPrs {
            root: format!("/r{}", number),
            prs,
        });
    }
    app.apply_worktree_filters();
    let numbers: Vec<Option<u32>> = app
        .worktrees
        .iter()
        .map(|w| w.pr_info.as_ref().map(|p| p.number))
        .collect();
    assert_eq!(numbers, vec![Some(1), None, Some(10), None]);
}

#[test]
fn selection_survives_by_path() {
    let mut app = three();
    app.selected_worktree_path = Some("/p/three".to_string());
    app.worktree_table_state.selected = Some(2);
    app.worktree_filter_text = "t".to_string();
    app.apply_worktree_filters();
    assert_eq!(branches(&app), vec!["two", "three"]);
    assert_eq!(app.worktree_table_state.selected, Some(1));
    app.worktree_filter_text = "one".to_string();
    assert_eq!(app.apply_worktree_filters(), Some("/p/one".to_string()));
    assert_eq!(app.worktree_table_state.selected, Some(0));
    assert_eq!(app.selected_worktree_path, None);
    app.selected_worktree_path = Some("/p/one".to_string());
    app.worktree_filter_text = "nothing".to_string();
    assert_eq!(app.apply_worktree_filters(), None);
    assert_eq!(app.worktree_table_state.selected, None);
}

#[test]
fn first_row_is_selected_where_none_was() {
    let mut app = three();
    assert_eq!(app.apply_worktree_filters(), Some("/p/one".to_string()));
    assert_eq!(app.worktree_table_state.selected, Some(0));
    assert_eq!(app.selected_worktree_path.as_deref(), Some("/p/one"));
    assert_eq!(app.apply_worktree_filters(), None);
}

#[test]
fn jump_prefers_the_agent() {
    let mut app = three();
    for (path, pane) in [("/p/two", "%1"), ("/p/two", "%2")] {
        app.all_agents.push(AgentPane {
            path: path.to_string(),
            pane_id: pane.to_string(),
        });
    }
    match app.worktree_jump_to_index(1) {
        Some(JumpRequest::SwitchToPane(pane)) => assert_eq!(pane, "%1"),
        other => panic!("{:?}", other),
    }
    match app.worktree_jump_to_index(2) {
        Some(JumpRequest::Open(request)) => {
            assert_eq!(request.handle, "three");
            assert_eq!(request.path, "/p/three");
            let args = plan_open(&request, MuxMode::Session);
            assert_eq!(args.handle, "three");
            assert_eq!(
                args.setup,
                SetupFlags {
                    hooks: false,
                    files: false,
                    panes: true
                }
            );
            assert_eq!(args.mode, MuxMode::Session);
            assert!(!args.new_window);
            assert_eq!(args.further, (None, None, None));
        }
        other => panic!("{:?}", other),
    }
    assert!(app.worktree_jump_to_index(3).is_none());
    assert_eq!(app.worktree_table_state.selected, Some(2));
    assert_eq!(app.selected_worktree_path.as_deref(), Some("/p/three"));
}

#[test]
fn opening_closes_the_dashboard_only_where_it_worked() {
    let mut app = three();
    assert!(app.open_selected_worktree().is_none());
    app.worktree_table_state.selected = Some(0);
    assert_eq!(app.open_selected_worktree().map(|r| r.path), Some("/p/one".to_string()));
    app.finish_open(false);
    assert!(!app.should_jump);
    app.finish_open(true);
    assert!(app.should_jump);
}

#[test]
fn repository_of_the_view() {
    let mut app = three();
    assert_eq!(app.worktree_repo_path().as_deref(), Some("/p/one"));
    app.current_worktree = Some(ProjectEntry {
        name: "c".to_string(),
        path: "/cur".to_string(),
    });
    assert_eq!(app.worktree_repo_path().as_deref(), Some("/cur"));
    app.worktree_project_override = Some(("o".to_string(), "/over".to_string()));
    assert_eq!(app.worktree_repo_path().as_deref(), Some("/over"));
    app.worktree_all_projects = true;
    assert_eq!(app.worktree_repo_path().as_deref(), Some("/over"));
    app.worktree_table_state.selected = Some(2);
    assert_eq!(app.worktree_repo_path().as_deref(), Some("/p/three"));
    assert_eq!(dashboard(Vec::new()).worktree_repo_path(), None);
}

#[test]
fn spelling_of_a_path_does_not_matter() {
    let mut app = three();
    app.selected_worktree_path = Some("/p//three/".to_string());
    app.worktree_preview_path = Some("/p/./three".to_string());
    app.worktree_preview = Some("log".to_string());
    assert_eq!(app.apply_worktree_filters(), None);
    assert_eq!(app.worktree_table_state.selected, Some(2));
    assert_eq!(app.worktree_preview.as_deref(), Some("log"));
    app.all_agents.push(AgentPane {
        path: "/p/three/".to_string(),
        pane_id: "%3".to_string(),
    });
    assert!(matches!(
        app.jump_to_selected_worktree(),
        Some(JumpRequest::SwitchToPane(pane)) if pane == "%3"
    ));
}
