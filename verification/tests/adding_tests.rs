use worktree_dashboard::add_worktree::{AddWorktreeJob, AddWorktreeMode, AddWorktreeState, PrEntry, PrListState};
use worktree_dashboard::adding::default_add_worktree_base;
use worktree_dashboard::app::App;
use worktree_dashboard::collections::PathMap;
use worktree_dashboard::types::{DashboardTab, MuxMode, TableState, WorktreeInfo, WorktreeSortMode};

fn worktree(branch: &str, path: &str) -> WorktreeInfo {
    WorktreeInfo {
        branch: branch.to_string(),
        path: path.to_string(),
        handle: path.rsplit('/').next().unwrap_or("").to_string(),
        is_main: false,
        mode: MuxMode::Window,
        has_mux_window: true,
        has_unmerged: true,
        pr_info: None,
        created_at: None,
        base_branch: None,
    }
}

fn dashboard(worktrees: Vec<WorktreeInfo>) -> App {
    App {
        active_tab: DashboardTab::Worktrees,
        agents: Vec::new(),
        table_state: TableState { selected: None },
        all_agents: Vec::new(),
        worktrees: worktrees.clone(),
        worktree_table_state: TableState { selected: None },
        selected_worktree_path: None,
        all_worktrees: worktrees,
        worktree_filter_text: String::new(),
        worktree_sort_mode: WorktreeSortMode::Natural,
        pr_statuses: Vec::new(),
        git_statuses: PathMap::new(),
        repo_roots: Vec::new(),
        worktree_project_override: None,
        worktree_all_projects: false,
        current_worktree: None,
        window_prefix: "wm-".to_string(),
        is_worktree_fetching: false,
        last_worktree_fetch: 0,
        worktree_preview_path: None,
        worktree_preview: None,
        pending_remove: None,
        pending_sweep: None,
        sweep_progress: None,
        pending_project_picker: None,
        pending_base_picker: None,
        pending_add_worktree: None,
        status_message: None,
        should_jump: false,
    }
}

fn adding() -> App {
    let mut app = dashboard(vec![worktree("feature/old", "/p/old")]);
    let branches = ["bugfix", "feature/a", "feature/old", "Feature/b", "my-feature"];
    app.show_add_worktree(
        Some(branches.iter().map(|b| b.to_string()).collect()),
        "main".to_string(),
        1,
    );
    app
}

fn modal(app: &App) -> &AddWorktreeState {
    app.pending_add_worktree.as_ref().unwrap()
}

fn type_in(app: &mut App, typed: &str) {
    for c in typed.chars() {
        app.add_worktree_append(c);
    }
}

fn created(job: &AddWorktreeJob) -> (&str, Option<&str>) {
    match job {
        AddWorktreeJob::CreateBranch { name, base_branch } => {
            (name.as_str(), base_branch.as_deref())
        }
        other => panic!("{:?}", other),
    }
}

fn checked_out(job: &AddWorktreeJob) -> u32 {
    match job {
        AddWorktreeJob::CheckoutPr { pr_number } => *pr_number,
        other => panic!("{:?}", other),
    }
}

#[test]
fn default_bases() {
    let text = |s: &str| Some(s.to_string());
    assert_eq!(default_add_worktree_base(text("conf"), text("cur"), text("def")), "conf");
    assert_eq!(default_add_worktree_base(None, text(" cur\n"), text("def")), "cur");
    assert_eq!(default_add_worktree_base(None, text(" \n"), text("def")), "def");
    assert_eq!(default_add_worktree_base(None, None, text("def")), "def");
    assert_eq!(default_add_worktree_base(None, None, None), "main");
}

#[test]
fn opening_the_modal() {
    let mut app = dashboard(Vec::new());
    app.show_add_worktree(Some(Vec::new()), "main".to_string(), 4);
    assert_eq!(
        app.status_message,
        Some(("No project context available".to_string(), 4))
    );
    let mut app = dashboard(vec![worktree("a", "/p/a")]);
    app.show_add_worktree(None, "main".to_string(), 5);
    assert_eq!(
        app.status_message,
        Some(("Failed to list branches".to_string(), 5))
    );
    assert!(app.pending_add_worktree.is_none());
    let app = adding();
    assert!(modal(&app).occupied_branches.contains("feature/old"));
    assert!(!modal(&app).occupied_branches.contains("bugfix"));
    assert_eq!(modal(&app).repo_path, "/p/old");
    assert_eq!(modal(&app).base_branch, "main");
    assert_eq!(modal(&app).mode, AddWorktreeMode::Branch);
    assert_eq!(modal(&app).filtered(), vec![0, 1, 3, 4, 2]);
    assert_eq!(modal(&app).selectable_count(), 4);
}

#[test]
fn editing_the_name() {
    let mut app = adding();
    type_in(&mut app, "feature/add-login ");
    app.add_worktree_down();
    app.add_worktree_delete_word();
    assert_eq!(modal(&app).filter, "feature/add");
    assert_eq!(modal(&app).cursor, 0);
    app.add_worktree_delete();
    assert_eq!(modal(&app).filter, "feature/ad");
    app.add_worktree_delete_word();
    app.add_worktree_delete_word();
    assert_eq!(modal(&app).filter, "");
    app.add_worktree_delete();
    assert_eq!(modal(&app).filter, "");
    type_in(&mut app, "x");
    app.add_worktree_clear();
    assert_eq!(modal(&app).filter, "");
}

#[test]
fn cursor_reaches_the_free_branches_only() {
    let mut app = adding();
    type_in(&mut app, "FEATURE");
    assert_eq!(modal(&app).filtered(), vec![1, 3, 4, 2]);
    for _ in 0..9 {
        app.add_worktree_down();
    }
    assert_eq!(modal(&app).cursor, 3);
    let request = app.add_worktree_confirm_selection(9).unwrap();
    assert_eq!(created(&request.job), ("my-feature", None));
    assert_eq!(request.repo_path, "/p/old");
    assert!(app.pending_add_worktree.is_none());
    assert_eq!(
        app.status_message,
        Some(("Creating worktree 'my-feature'...".to_string(), 9))
    );
}

#[test]
fn cursor_without_a_name() {
    let mut app = adding();
    for _ in 0..9 {
        app.add_worktree_down();
    }
    assert_eq!(modal(&app).cursor, 3);
    app.add_worktree_up();
    assert_eq!(modal(&app).cursor, 2);
    let request = app.add_worktree_confirm_selection(9).unwrap();
    assert_eq!(created(&request.job), ("feature/a", None));
}

#[test]
fn completion_cycles_over_what_was_typed() {
    let mut app = adding();
    type_in(&mut app, "feat");
    let mut seen = Vec::new();
    for _ in 0..3 {
        app.add_worktree_tab_complete();
        seen.push((modal(&app).filter.clone(), modal(&app).cursor));
        assert_eq!(modal(&app).tab_prefix.as_deref(), Some("feat"));
    }
    assert_eq!(
        seen,
        vec![
            ("feature/a".to_string(), 1),
            ("Feature/b".to_string(), 2),
            ("feature/a".to_string(), 1),
        ]
    );
    let request = app.add_worktree_confirm_selection(1).unwrap();
    assert_eq!(created(&request.job), ("feature/a", None));
}

#[test]
fn completion_without_a_match() {
    let mut app = adding();
    type_in(&mut app, "zz");
    app.add_worktree_tab_complete();
    assert_eq!(modal(&app).filter, "zz");
    app.add_worktree_append('z');
    assert_eq!(modal(&app).tab_prefix, None);
}

#[test]
fn completing_the_base() {
    let mut app = adding();
    app.add_worktree_toggle_base();
    assert!(modal(&app).editing_base);
    assert_eq!(modal(&app).base_filter, "main");
    app.add_worktree_base_clear();
    for c in "feature/o".chars() {
        app.add_worktree_base_append(c);
    }
    app.add_worktree_base_tab_complete();
    assert_eq!(modal(&app).base_filter, "feature/old");
    assert!(app.add_worktree_confirm_selection(1).is_none());
    assert!(!modal(&app).editing_base);
    assert_eq!(modal(&app).base_branch, "feature/old");
    assert_eq!(modal(&app).base_filter, "");
}

#[test]
fn blank_base_is_not_taken() {
    let mut app = adding();
    app.add_worktree_toggle_base();
    app.add_worktree_base_delete_word();
    app.add_worktree_base_append(' ');
    app.add_worktree_toggle_base();
    assert_eq!(modal(&app).base_branch, "main");
    app.add_worktree_toggle_base();
    app.add_worktree_toggle_base();
    assert_eq!(modal(&app).base_branch, "main");
    app.add_worktree_toggle_base();
    app.add_worktree_base_delete();
    app.add_worktree_toggle_base();
    assert_eq!(modal(&app).base_branch, "mai");
}

#[test]
fn new_branch_starts_from_the_base() {
    let mut app = adding();
    assert!(app.add_worktree_confirm_selection(1).is_none());
    assert!(app.pending_add_worktree.is_some());
    type_in(&mut app, " topic ");
    let request = app.add_worktree_confirm_selection(2).unwrap();
    assert_eq!(created(&request.job), ("topic", Some("main")));
    assert_eq!(
        app.status_message,
        Some(("Creating worktree 'topic'...".to_string(), 2))
    );
    assert!(app.add_worktree_confirm_selection(3).is_none());
}

#[test]
fn typed_numbers_are_pull_requests() {
    for (typed, number) in [("#123", Some(123)), (" 45 ", Some(45)), ("#", None), ("4294967296", None)] {
        let mut app = adding();
        type_in(&mut app, typed);
        assert_eq!(modal(&app).detected_pr_number(), number);
    }
    let mut app = adding();
    type_in(&mut app, "#123");
    let request = app.add_worktree_confirm_selection(2).unwrap();
    assert_eq!(checked_out(&request.job), 123);
    assert_eq!(
        app.status_message,
        Some(("Checking out PR #123...".to_string(), 2))
    );
}

#[test]
fn pull_requests_are_asked_for_once() {
    let mut app = adding();
    app.add_worktree_toggle_base();
    let request = app.add_worktree_toggle_pr_mode().unwrap();
    assert_eq!((request.request_id, request.repo_path.as_str()), (1, "/p/old"));
    assert!(!modal(&app).editing_base);
    assert!(matches!(modal(&app).pr_list, Some(PrListState::Loading)));
    assert!(modal(&app).filtered_prs().is_empty());
    assert!(app.add_worktree_confirm_selection(1).is_none());
    assert!(app.add_worktree_toggle_pr_mode().is_none());
    assert_eq!(modal(&app).mode, AddWorktreeMode::Branch);
    assert!(app.add_worktree_toggle_pr_mode().is_none());
    assert_eq!(modal(&app).pr_request_counter, 1);
}

#[test]
fn picking_a_pull_request() {
    let mut app = adding();
    app.add_worktree_toggle_pr_mode();
    let prs = [(12, "Fix login"), (34, "Add tests"), (121, "Docs")]
        .iter()
        .map(|(number, title)| PrEntry {
            number: *number,
            title: title.to_string(),
        })
        .collect();
    app.pending_add_worktree.as_mut().unwrap().pr_list = Some(PrListState::Loaded { prs });
    app.add_worktree_tab_complete();
    app.add_worktree_toggle_base();
    assert!(modal(&app).tab_prefix.is_none() && !modal(&app).editing_base);
    assert_eq!(modal(&app).filtered_prs(), vec![0, 1, 2]);
    type_in(&mut app, "12");
    assert_eq!(modal(&app).filtered_prs(), vec![0, 2]);
    app.add_worktree_down();
    app.add_worktree_down();
    assert_eq!(modal(&app).cursor, 1);
    let request = app.add_worktree_confirm_selection(7).unwrap();
    assert_eq!(checked_out(&request.job), 121);
    assert!(app.pending_add_worktree.is_none());
}

#[test]
fn failed_pull_request_list() {
    let mut app = adding();
    app.add_worktree_toggle_pr_mode();
    app.pending_add_worktree.as_mut().unwrap().pr_list = Some(PrListState::Failed {
        message: "offline".to_string(),
    });
    assert!(app.add_worktree_confirm_selection(1).is_none());
    assert!(app.pending_add_worktree.is_some());
}

#[test]
fn results_go_to_the_status_line() {
    let mut app = adding();
    app.handle_add_worktree_result(Ok("topic".to_string()), 90_000);
    assert_eq!(
        app.status_message,
        Some(("Created worktree 'topic'".to_string(), 90_000))
    );
    assert_eq!(app.last_worktree_fetch, 30_000);
    app.handle_add_worktree_result(Err("no".to_string()), 95_000);
    assert_eq!(
        app.status_message,
        Some(("Failed to create worktree: no".to_string(), 95_000))
    );
    assert_eq!(app.last_worktree_fetch, 30_000);
}

#[test]
fn keys_without_a_modal_do_nothing() {
    let mut app = dashboard(Vec::new());
    app.add_worktree_append('x');
    app.add_worktree_down();
    app.add_worktree_up();
    app.add_worktree_tab_complete();
    app.add_worktree_base_append('x');
    app.add_worktree_toggle_base();
    assert!(app.add_worktree_toggle_pr_mode().is_none());
    assert!(app.add_worktree_confirm_selection(1).is_none());
    assert!(app.pending_add_worktree.is_none() && app.status_message.is_none());
}

#[test]
fn switching_modes_keeps_what_was_typed() {
    let mut app = adding();
    type_in(&mut app, "topic");
    app.add_worktree_toggle_pr_mode();
    assert_eq!(modal(&app).mode, AddWorktreeMode::Pr);
    app.add_worktree_toggle_pr_mode();
    assert_eq!(modal(&app).mode, AddWorktreeMode::Branch);
    assert_eq!(modal(&app).filter, "topic");
    assert_eq!(modal(&app).base_branch, "main");
}

#[test]
fn cursor_is_on_a_row_after_every_key() {
    let mut app = adding();
    type_in(&mut app, "feat");
    app.add_worktree_down();
    app.add_worktree_tab_complete();
    app.add_worktree_tab_complete();
    assert_eq!(modal(&app).cursor, 2);
    assert!(modal(&app).cursor <= modal(&app).selectable_count());
    app.add_worktree_delete();
    assert_eq!(modal(&app).cursor, 0);
    app.add_worktree_toggle_pr_mode();
    app.add_worktree_down();
    assert_eq!(modal(&app).cursor, 0);
}
