use worktree_dashboard::app::App;
use worktree_dashboard::collections::PathMap;
use worktree_dashboard::projects::ALL_PROJECTS_LABEL;
use worktree_dashboard::types::{AgentPane, DashboardTab, FetchRequest, FetchScope, GitStatus, MuxMode, ProjectEntry, TableState, WorktreeInfo, WorktreeSortMode};

fn worktree(branch: &str, path: &str) -> WorktreeInfo {
    WorktreeInfo {
        branch: branch.to_string(),
        path: path.to_string(),
        handle: path.rsplit('/').next().unwrap_or("").to_string(),
        is_main: false,
        mode: MuxMode::Window,
        has_mux_window: true,
        has_unmerged: true,
        pr_info: None,
        created_at: None,
        base_branch: None,
    }
}

fn dashboard(worktrees: Vec<WorktreeInfo>) -> App {
    App {
        active_tab: DashboardTab::Worktrees,
        agents: Vec::new(),
        table_state: TableState { selected: None },
        all_agents: Vec::new(),
        worktrees: worktrees.clone(),
        worktree_table_state: TableState { selected: None },
        selected_worktree_path: None,
        all_worktrees: worktrees,
        worktree_filter_text: String::new(),
        worktree_sort_mode: WorktreeSortMode::Natural,
        pr_statuses: Vec::new(),
        git_statuses: PathMap::new(),
        repo_roots: Vec::new(),
        worktree_project_override: None,
        worktree_all_projects: false,
        current_worktree: None,
        window_prefix: "wm-".to_string(),
        is_worktree_fetching: false,
        last_worktree_fetch: 0,
        worktree_preview_path: None,
        worktree_preview: None,
        pending_remove: None,
        pending_sweep: None,
        sweep_progress: None,
        pending_project_picker: None,
        pending_base_picker: None,
        pending_add_worktree: None,
        status_message: None,
        should_jump: false,
    }
}

fn entry(name: &str, path: &str) -> ProjectEntry {
    ProjectEntry {
        name: name.to_string(),
        path: path.to_string(),
    }
}

fn with_projects() -> App {
    let mut app = dashboard(vec![worktree("a", "/p/a")]);
    app.repo_roots = vec![
        entry("web", "/w/web"),
        entry("Api", "/w/api"),
        entry("web", "/other/web"),
        entry("core", "/w/core"),
    ];
    app
}

fn names(app: &App) -> Vec<String> {
    let picker = app.pending_project_picker.as_ref().unwrap();
    picker.projects.iter().map(|p| p.name.clone()).collect()
}

#[test]
fn projects_by_name_behind_all_projects() {
    let mut app = with_projects();
    app.current_worktree = Some(entry("core", "/w/core/x"));
    app.show_project_picker();
    assert_eq!(names(&app), vec![ALL_PROJECTS_LABEL, "Api", "core", "web"]);
    let picker = app.pending_project_picker.as_ref().unwrap();
    assert_eq!(picker.projects[0].path, "");
    assert_eq!(picker.projects[3].path, "/w/web");
    assert_eq!(picker.cursor, 2);
    assert_eq!(picker.current_name.as_deref(), Some("core"));
}

#[test]
fn one_project_needs_no_entry_for_all() {
    let mut app = dashboard(Vec::new());
    app.repo_roots = vec![entry("solo", "/s"), entry("solo", "/t")];
    app.worktree_all_projects = true;
    app.show_project_picker();
    assert_eq!(names(&app), vec!["solo"]);
    let picker = app.pending_project_picker.as_ref().unwrap();
    assert_eq!(picker.cursor, 0);
    assert_eq!(picker.current_name.as_deref(), Some("all projects"));
}

#[test]
fn cursor_starts_on_what_is_shown() {
    let mut app = with_projects();
    app.show_project_picker();
    assert_eq!(app.pending_project_picker.as_ref().unwrap().cursor, 0);
    assert_eq!(app.pending_project_picker.as_ref().unwrap().current_name, None);
    app.worktree_project_override = Some(("web".to_string(), "/w/web".to_string()));
    app.current_worktree = Some(entry("core", "/w/core"));
    app.show_project_picker();
    assert_eq!(app.pending_project_picker.as_ref().unwrap().cursor, 3);
    app.worktree_all_projects = true;
    app.show_project_picker();
    assert_eq!(app.pending_project_picker.as_ref().unwrap().cursor, 0);
}

#[test]
fn picking_a_project() {
    let mut app = with_projects();
    app.active_tab = DashboardTab::Agents;
    app.show_project_picker();
    for c in "WE".chars() {
        app.project_picker_filter_append(c);
    }
    match app.confirm_project_picker(5) {
        Some(FetchRequest { scope: FetchScope::Project(Some(path)), .. }) => assert_eq!(path, "/w/web"),
        other => panic!("{:?}", other),
    }
    assert_eq!(
        app.worktree_project_override,
        Some(("web".to_string(), "/w/web".to_string()))
    );
    assert!(!app.worktree_all_projects);
    assert!(app.worktrees.is_empty() && app.all_worktrees.is_empty());
    assert_eq!(app.active_tab, DashboardTab::Worktrees);
    assert_eq!(app.last_worktree_fetch, 5);
}

#[test]
fn picking_all_projects() {
    let mut app = with_projects();
    app.worktree_project_override = Some(("web".to_string(), "/w/web".to_string()));
    app.show_project_picker();
    app.project_picker_up();
    app.project_picker_up();
    app.project_picker_up();
    match app.confirm_project_picker(5) {
        Some(FetchRequest { scope: FetchScope::AllProjects(roots), .. }) => {
            assert_eq!(roots, vec!["/other/web", "/w/api", "/w/core", "/w/web"])
        }
        other => panic!("{:?}", other),
    }
    assert!(app.worktree_all_projects);
    assert_eq!(app.worktree_project_override, None);
}

#[test]
fn project_filter_and_cursor() {
    let mut app = with_projects();
    app.project_picker_down();
    app.project_picker_filter_append('x');
    assert!(app.pending_project_picker.is_none());
    app.show_project_picker();
    for _ in 0..9 {
        app.project_picker_down();
    }
    assert_eq!(app.pending_project_picker.as_ref().unwrap().cursor, 3);
    app.project_picker_filter_append('z');
    let picker = app.pending_project_picker.as_ref().unwrap();
    assert_eq!((picker.cursor, picker.filter.as_str()), (0, "z"));
    assert!(picker.filtered().is_empty());
    app.project_picker_down();
    assert_eq!(app.pending_project_picker.as_ref().unwrap().cursor, 0);
    app.project_picker_filter_delete();
    app.project_picker_filter_delete();
    let picker = app.pending_project_picker.as_ref().unwrap();
    assert_eq!(picker.filter, "");
    assert_eq!(picker.filtered(), vec![0, 1, 2, 3]);
    app.project_picker_filter_append('z');
    assert!(app.confirm_project_picker(5).is_none());
    assert!(app.pending_project_picker.is_none());
    assert_eq!(app.worktrees.len(), 1);
}

fn branches() -> Vec<String> {
    ["dev", "feature", "main", "x"].iter().map(|b| b.to_string()).collect()
}

fn on_feature() -> App {
    let mut w = worktree("feature", "/p/f");
    w.base_branch = Some("main".to_string());
    let mut app = dashboard(vec![w, worktree("other", "/p/o")]);
    app.worktree_table_state.selected = Some(0);
    app
}

#[test]
fn base_choices_leave_out_the_branch_and_pin_the_base() {
    let mut app = on_feature();
    let target = app.base_picker_target(None, None).unwrap();
    assert_eq!(target.repo_path, "/p/f");
    app.show_base_branch_picker(None, None, Some(branches()), 1);
    let picker = app.pending_base_picker.as_ref().unwrap();
    assert_eq!(picker.branches, vec!["main", "dev", "x"]);
    assert_eq!(picker.cursor, 0);
    assert_eq!(picker.current_base.as_deref(), Some("main"));
    assert_eq!(picker.worktree_branch, "feature");
    assert_eq!(picker.repo_path, "/p/f");
}

#[test]
fn unknown_base_is_not_pinned() {
    let mut app = on_feature();
    app.worktrees[0].base_branch = Some("gone".to_string());
    app.show_base_branch_picker(None, None, Some(branches()), 1);
    assert_eq!(
        app.pending_base_picker.as_ref().unwrap().branches,
        vec!["dev", "main", "x"]
    );
}

#[test]
fn no_base_for_main_or_detached() {
    let mut app = on_feature();
    app.worktrees[0].branch = "(detached)".to_string();
    app.show_base_branch_picker(None, None, Some(branches()), 1);
    assert!(app.pending_base_picker.is_none());
    let mut app = on_feature();
    app.worktrees[0].is_main = true;
    app.show_base_branch_picker(None, None, None, 1);
    assert!(app.pending_base_picker.is_none() && app.status_message.is_none());
}

#[test]
fn failed_listing_is_reported() {
    let mut app = on_feature();
    app.show_base_branch_picker(None, None, None, 3);
    assert_eq!(
        app.status_message,
        Some(("Failed to list branches".to_string(), 3))
    );
}

#[test]
fn base_of_the_agents_branch() {
    let mut app = on_feature();
    app.active_tab = DashboardTab::Agents;
    assert!(app.base_picker_agent().is_none());
    app.agents.push(AgentPane {
        path: "/p/agent".to_string(),
        pane_id: "%1".to_string(),
    });
    app.table_state.selected = Some(0);
    assert_eq!(app.base_picker_agent().as_deref(), Some("/p/agent"));
    for branch in [None, Some(String::new()), Some("(detached)".to_string())] {
        assert!(app.base_picker_target(branch, None).is_none());
    }
    app.show_base_branch_picker(
        Some("dev".to_string()),
        Some("x".to_string()),
        Some(branches()),
        1,
    );
    let picker = app.pending_base_picker.as_ref().unwrap();
    assert_eq!(picker.branches, vec!["x", "feature", "main"]);
    assert_eq!(picker.repo_path, "/p/agent");
}

#[test]
fn confirmed_base_shows_at_once() {
    let mut app = on_feature();
    app.all_worktrees.push(worktree("feature", "/p/again"));
    app.git_statuses.insert(
        "/p/f".to_string(),
        GitStatus {
            is_dirty: true,
            has_upstream: false,
            base_branch: "main".to_string(),
        },
    );
    app.show_base_branch_picker(None, None, Some(branches()), 1);
    app.base_picker_down();
    let choice = app.base_picker_choice().unwrap();
    assert_eq!(
        (choice.branch.as_str(), choice.new_base.as_str(), choice.repo_path.as_str()),
        ("feature", "dev", "/p/f")
    );
    app.confirm_base_picker(Ok(()), 100_000);
    assert!(app.pending_base_picker.is_none());
    assert_eq!(app.worktrees[0].base_branch.as_deref(), Some("dev"));
    assert_eq!(app.worktrees[1].base_branch, None);
    assert_eq!(app.all_worktrees[2].base_branch.as_deref(), Some("dev"));
    let status = app.git_statuses.get("/p/f").unwrap();
    assert_eq!(status.base_branch, "dev");
    assert!(status.is_dirty);
    assert_eq!(
        app.status_message,
        Some(("Base for 'feature' set to 'dev'".to_string(), 100_000))
    );
    assert_eq!(app.last_worktree_fetch, 40_000);
}

#[test]
fn failure_to_set_a_base_is_reported() {
    let mut app = on_feature();
    app.show_base_branch_picker(None, None, Some(branches()), 1);
    app.confirm_base_picker(Err("no".to_string()), 2);
    assert_eq!(
        app.status_message,
        Some(("Failed to set base: no".to_string(), 2))
    );
    assert!(app.pending_base_picker.is_none());
    assert_eq!(app.worktrees[0].base_branch.as_deref(), Some("main"));
    assert_eq!(app.last_worktree_fetch, 0);
}

#[test]
fn base_filter_and_cursor() {
    let mut app = on_feature();
    app.base_picker_down();
    app.base_picker_up();
    app.base_picker_filter_append('x');
    app.base_picker_filter_delete();
    assert!(app.pending_base_picker.is_none());
    app.show_base_branch_picker(None, None, Some(branches()), 1);
    for _ in 0..5 {
        app.base_picker_down();
    }
    assert_eq!(app.pending_base_picker.as_ref().unwrap().cursor, 2);
    app.base_picker_up();
    assert_eq!(app.pending_base_picker.as_ref().unwrap().cursor, 1);
    app.base_picker_filter_append('D');
    assert_eq!(app.pending_base_picker.as_ref().unwrap().filtered(), vec![1]);
    app.base_picker_filter_append('q');
    assert!(app.base_picker_choice().is_none());
    app.base_picker_filter_delete();
    assert_eq!(app.pending_base_picker.as_ref().unwrap().filter, "D");
    app.base_picker_filter_append('q');
    app.confirm_base_picker(Ok(()), 1);
    assert!(app.pending_base_picker.is_none() && app.status_message.is_none());
}
