use worktree_dashboard::app::App;
use worktree_dashboard::collections::PathMap;
use worktree_dashboard::sweep::SweepReason;
use worktree_dashboard::types::{DashboardTab, FetchRequest, FetchScope, GitStatus, MuxMode, PrSummary, TableState, WorktreeInfo, WorktreeSortMode};

fn worktree(branch: &str, path: &str) -> WorktreeInfo {
    WorktreeInfo {
        branch: branch.to_string(),
        path: path.to_string(),
        handle: path.rsplit('/').next().unwrap_or("").to_string(),
        is_main: false,
        mode: MuxMode::Window,
        has_mux_window: true,
        has_unmerged: true,
        pr_info: None,
        created_at: None,
        base_branch: None,
    }
}

fn dashboard(worktrees: Vec<WorktreeInfo>) -> App {
    App {
        active_tab: DashboardTab::Worktrees,
        agents: Vec::new(),
        table_state: TableState { selected: None },
        all_agents: Vec::new(),
        worktrees: worktrees.clone(),
        worktree_table_state: TableState { selected: None },
        selected_worktree_path: None,
        all_worktrees: worktrees,
        worktree_filter_text: String::new(),
        worktree_sort_mode: WorktreeSortMode::Natural,
        pr_statuses: Vec::new(),
        git_statuses: PathMap::new(),
        repo_roots: Vec::new(),
        worktree_project_override: None,
        worktree_all_projects: false,
        current_worktree: None,
        window_prefix: "wm-".to_string(),
        is_worktree_fetching: false,
        last_worktree_fetch: 0,
        worktree_preview_path: None,
        worktree_preview: None,
        pending_remove: None,
        pending_sweep: None,
        sweep_progress: None,
        pending_project_picker: None,
        pending_base_picker: None,
        pending_add_worktree: None,
        status_message: None,
        should_jump: false,
    }
}

fn status(is_dirty: bool, has_upstream: bool) -> GitStatus {
    GitStatus {
        is_dirty,
        has_upstream,
        base_branch: "main".to_string(),
    }
}

fn with_pr(mut w: WorktreeInfo, state: &str) -> WorktreeInfo {
    w.pr_info = Some(PrSummary {
        number: 1,
        title: "t".to_string(),
        state: state.to_string(),
    });
    w
}

fn sweepable() -> App {
    let mut main = worktree("main", "/p/main");
    main.is_main = true;
    main.has_unmerged = false;
    let mut local = worktree("local", "/p/local");
    local.has_unmerged = false;
    let mut followed = worktree("tracked", "/p/tracked");
    followed.has_unmerged = false;
    let mut open = with_pr(worktree("open", "/p/open"), "OPEN");
    open.has_unmerged = false;
    let mut app = dashboard(vec![
        main,
        with_pr(worktree("merged", "/p/merged"), "MERGED"),
        with_pr(worktree("closed", "/p/closed"), "CLOSED"),
        open,
        with_pr(worktree("open-gone", "/p/open-gone"), "OPEN"),
        worktree("gone", "/p/gone"),
        local,
        followed,
        worktree("unmerged", "/p/unmerged"),
    ]);
    app.git_statuses
        .insert("/p/closed/".to_string(), status(true, true));
    app.git_statuses
        .insert("/p/tracked".to_string(), status(false, true));
    app
}

#[test]
fn candidates_and_their_reasons() {
    let mut app = sweepable();
    let gone = vec!["gone".to_string(), "open-gone".to_string(), "merged".to_string()];
    assert!(app.start_sweep(Some(gone)).is_none());
    let sweep = app.pending_sweep.as_ref().unwrap();
    let found: Vec<(&str, SweepReason, bool, bool)> = sweep
        .candidates
        .iter()
        .map(|c| (c.handle.as_str(), c.reason, c.is_dirty, c.selected))
        .collect();
    assert_eq!(
        found,
        vec![
            ("merged", SweepReason::PrMerged, false, true),
            ("closed", SweepReason::PrClosed, true, false),
            ("open-gone", SweepReason::UpstreamGone, false, true),
            ("gone", SweepReason::UpstreamGone, false, true),
            ("local", SweepReason::MergedLocally, false, true),
        ]
    );
    assert_eq!(sweep.cursor, 0);
}

#[test]
fn without_git_nothing_is_gone() {
    let mut app = sweepable();
    app.start_sweep(None);
    let handles: Vec<String> = app
        .pending_sweep
        .unwrap()
        .candidates
        .into_iter()
        .map(|c| c.handle)
        .collect();
    assert_eq!(handles, vec!["merged", "closed", "local"]);
}

#[test]
fn empty_list_is_fetched() {
    let mut app = dashboard(Vec::new());
    match app.start_sweep(None) {
        Some(FetchRequest { scope: FetchScope::Project(None), fetch_pr_status: false, .. }) => {}
        other => panic!("{:?}", other),
    }
    assert!(app.pending_sweep.as_ref().unwrap().candidates.is_empty());
    assert!(app.start_sweep(None).is_none());
}

#[test]
fn dirty_candidates_cannot_be_selected() {
    let mut app = sweepable();
    app.start_sweep(None);
    app.sweep_toggle();
    app.sweep_toggle();
    assert!(app.pending_sweep.as_ref().unwrap().candidates[0].selected);
    app.sweep_down();
    app.sweep_toggle();
    assert!(!app.pending_sweep.as_ref().unwrap().candidates[1].selected);
    app.sweep_down();
    app.sweep_down();
    assert_eq!(app.pending_sweep.as_ref().unwrap().cursor, 2);
    app.sweep_up();
    app.sweep_up();
    app.sweep_up();
    assert_eq!(app.pending_sweep.as_ref().unwrap().cursor, 0);
}

#[test]
fn sweep_runs_to_the_end() {
    let mut app = sweepable();
    app.start_sweep(None);
    let mut job = app.confirm_sweep().unwrap();
    assert!(app.pending_sweep.is_none());
    let progress = app.sweep_progress.as_ref().unwrap();
    assert_eq!((progress.total, progress.current), (2, 1));
    assert_eq!(progress.handle, "merged");
    let step = job.step().unwrap();
    assert_eq!((step.current, step.total), (1, 2));
    assert_eq!(step.request.handle, "merged");
    assert_eq!(step.request.path, "/p/merged");
    assert!(step.request.force && !step.request.keep_branch);
    job.record(true);
    let step = job.step().unwrap();
    assert_eq!((step.current, step.request.handle.as_str()), (2, "local"));
    job.record(false);
    assert!(job.step().is_none());
    assert_eq!(job.outcome(), Err("Removed 1/2 worktrees".to_string()));
}

#[test]
fn sweep_without_failures_succeeds() {
    let mut app = sweepable();
    app.start_sweep(None);
    let mut job = app.confirm_sweep().unwrap();
    while job.step().is_some() {
        job.record(true);
    }
    assert_eq!(job.outcome(), Ok(()));
}

#[test]
fn sweep_of_nothing() {
    let mut app = sweepable();
    assert!(app.confirm_sweep().is_none());
    app.start_sweep(None);
    for c in app.pending_sweep.as_mut().unwrap().candidates.iter_mut() {
        c.selected = false;
    }
    assert!(app.confirm_sweep().is_none());
    assert!(app.pending_sweep.is_none());
    assert!(app.sweep_progress.is_none());
}

#[test]
fn moves_without_a_sweep_do_nothing() {
    let mut app = sweepable();
    app.sweep_up();
    app.sweep_down();
    app.sweep_toggle();
    assert!(app.pending_sweep.is_none());
}

#[test]
fn no_keys_sweep_a_dirty_or_main_worktree() {
    let mut app = sweepable();
    app.start_sweep(None);
    for _ in 0..4 {
        app.sweep_toggle();
        app.sweep_down();
        app.sweep_toggle();
        app.sweep_up();
        app.sweep_down();
    }
    let handles: Vec<String> = app
        .pending_sweep
        .as_ref()
        .unwrap()
        .candidates
        .iter()
        .filter(|c| c.selected)
        .map(|c| c.handle.clone())
        .collect();
    let job = app.confirm_sweep();
    let swept: Vec<String> = job
        .map(|job| job.targets.into_iter().map(|t| t.handle).collect())
        .unwrap_or_default();
    assert_eq!(swept, handles);
    assert!(!swept.contains(&"closed".to_string()) && !swept.contains(&"main".to_string()));
}
