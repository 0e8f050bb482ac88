use worktree_dashboard::app::App;
use worktree_dashboard::collections::PathMap;
use worktree_dashboard::paths::file_name_of;
use worktree_dashboard::types::{AgentPane, DashboardTab, MuxMode, TableState, WorktreeInfo, WorktreeSortMode};

fn worktree(branch: &str, path: &str) -> WorktreeInfo {
    WorktreeInfo {
        branch: branch.to_string(),
        path: path.to_string(),
        handle: path.rsplit('/').next().unwrap_or("").to_string(),
        is_main: false,
        mode: MuxMode::Window,
        has_mux_window: true,
        has_unmerged: true,
        pr_info: None,
        created_at: None,
        base_branch: None,
    }
}

fn dashboard(worktrees: Vec<WorktreeInfo>) -> App {
    App {
        active_tab: DashboardTab::Worktrees,
        agents: Vec::new(),
        table_state: TableState { selected: None },
        all_agents: Vec::new(),
        worktrees: worktrees.clone(),
        worktree_table_state: TableState { selected: None },
        selected_worktree_path: None,
        all_worktrees: worktrees,
        worktree_filter_text: String::new(),
        worktree_sort_mode: WorktreeSortMode::Natural,
        pr_statuses: Vec::new(),
        git_statuses: PathMap::new(),
        repo_roots: Vec::new(),
        worktree_project_override: None,
        worktree_all_projects: false,
        current_worktree: None,
        window_prefix: "wm-".to_string(),
        is_worktree_fetching: false,
        last_worktree_fetch: 0,
        worktree_preview_path: None,
        worktree_preview: None,
        pending_remove: None,
        pending_sweep: None,
        sweep_progress: None,
        pending_project_picker: None,
        pending_base_picker: None,
        pending_add_worktree: None,
        status_message: None,
        should_jump: false,
    }
}

fn two() -> App {
    let mut main = worktree("main", "/p/main");
    main.is_main = true;
    let mut app = dashboard(vec![main, worktree("a", "/p/a"), worktree("b", "/p/b")]);
    app.worktree_table_state.selected = Some(1);
    app
}

#[test]
fn directory_names() {
    assert_eq!(file_name_of("/a/b"), "b");
    assert_eq!(file_name_of("/"), "");
    assert_eq!(file_name_of(""), "");
    assert_eq!(file_name_of("b"), "b");
    assert_eq!(file_name_of("/r/c/"), "c");
    assert_eq!(file_name_of("/r/c//."), "c");
    assert_eq!(file_name_of("/r/.."), "");
    assert_eq!(file_name_of("."), "");
}

#[test]
fn removal_names_the_directory_however_it_is_spelled() {
    let mut app = two();
    app.worktrees[1].path = "/p/a/".to_string();
    app.remove_selected_worktree(Some(false));
    let request = app.confirm_remove().unwrap();
    assert_eq!(request.handle, "a");
    app.do_remove_worktree(&"/p/a".to_string(), true);
    assert_eq!(app.worktrees.len(), 2);
}

#[test]
fn clean_worktree_is_offered_and_removed() {
    let mut app = two();
    assert_eq!(app.removal_candidate().as_deref(), Some("/p/a"));
    app.remove_selected_worktree(Some(false));
    let plan = app.pending_remove.as_ref().unwrap();
    assert!(!plan.is_dirty && plan.is_unmerged && !plan.keep_branch && !plan.force_armed);
    app.arm_remove_force();
    assert!(!app.pending_remove.as_ref().unwrap().force_armed);
    app.toggle_remove_keep_branch();
    let request = app.confirm_remove().unwrap();
    assert_eq!(request.handle, "a");
    assert_eq!(request.path, "/p/a");
    assert!(request.keep_branch && request.force);
    assert!(app.pending_remove.is_none());
}

#[test]
fn dirty_worktree_takes_force() {
    let mut app = two();
    app.remove_selected_worktree(Some(true));
    assert!(app.confirm_remove().is_none());
    assert!(app.pending_remove.is_some());
    app.arm_remove_force();
    assert!(app.confirm_remove().is_some());
    assert!(app.confirm_remove().is_none());
}

#[test]
fn unknown_state_counts_as_clean() {
    let mut app = two();
    app.remove_selected_worktree(None);
    assert!(!app.pending_remove.as_ref().unwrap().is_dirty);
}

#[test]
fn main_worktree_is_not_offered() {
    let mut app = two();
    app.worktree_table_state.selected = Some(0);
    assert!(app.removal_candidate().is_none());
    app.remove_selected_worktree(Some(false));
    assert!(app.pending_remove.is_none());
    app.worktree_table_state.selected = None;
    app.remove_selected_worktree(Some(false));
    assert!(app.pending_remove.is_none());
}

#[test]
fn agent_tab_removes_the_agents_worktree() {
    let mut app = two();
    app.active_tab = DashboardTab::Agents;
    app.agents.push(AgentPane {
        path: "/p/b".to_string(),
        pane_id: "%1".to_string(),
    });
    assert!(app.removal_candidate().is_none());
    app.table_state.selected = Some(0);
    assert_eq!(app.removal_candidate().as_deref(), Some("/p/b"));
    app.agents[0].path = "/elsewhere".to_string();
    assert!(app.removal_candidate().is_none());
}

#[test]
fn toggling_keep_branch_twice_changes_nothing() {
    let mut app = two();
    app.remove_selected_worktree(Some(false));
    app.toggle_remove_keep_branch();
    assert!(app.pending_remove.as_ref().unwrap().keep_branch);
    app.toggle_remove_keep_branch();
    assert!(!app.pending_remove.as_ref().unwrap().keep_branch);
}

#[test]
fn removal_moves_the_selection() {
    let mut app = two();
    app.worktree_table_state.selected = Some(2);
    app.do_remove_worktree(&"/p/b".to_string(), false);
    assert_eq!(app.worktrees.len(), 3);
    app.do_remove_worktree(&"/p/b".to_string(), true);
    assert_eq!(app.worktrees.len(), 2);
    assert_eq!(app.worktree_table_state.selected, Some(1));
    assert_eq!(app.selected_worktree_path.as_deref(), Some("/p/a"));
    app.do_remove_worktree(&"/p/main".to_string(), true);
    assert_eq!(app.worktree_table_state.selected, Some(0));
    app.do_remove_worktree(&"/p/a".to_string(), true);
    assert_eq!(app.worktree_table_state.selected, None);
    assert_eq!(app.selected_worktree_path, None);
    assert_eq!(app.all_worktrees.len(), 3);
}

#[test]
fn closing_a_window() {
    let mut app = two();
    app.worktrees[1].mode = MuxMode::Session;
    let request = app.close_selected_worktree_window(70_000).unwrap();
    assert_eq!(request.handle, "a");
    assert_eq!(request.mode, MuxMode::Session);
    assert_eq!(request.prefix, "wm-");
    assert_eq!(app.last_worktree_fetch, 10_000);
    app.worktrees[1].has_mux_window = false;
    assert!(app.close_selected_worktree_window(90_000).is_none());
    app.worktree_table_state.selected = Some(0);
    assert!(app.close_selected_worktree_window(90_000).is_none());
    app.worktree_table_state.selected = Some(5);
    assert!(app.close_selected_worktree_window(90_000).is_none());
    assert_eq!(app.last_worktree_fetch, 10_000);
}
