//! The state of the dashboard, as far as the worktree tab reads and writes it.

use vstd::prelude::*;
use crate::add_worktree::AddWorktreeState;
use crate::collections::{PathMap, TextMap};
use crate::picker::{BaseBranchPicker, ProjectPicker};
use crate::sweep::{SweepProgress, SweepState};
use crate::types::{
    AgentPane, DashboardTab, FetchRequest, FetchScope, GitStatus, PrSummary, ProjectEntry, RemovePlan,
    TableState, WorktreeInfo, WorktreeSortMode,
};
use crate::order;

verus! {

/// The pull requests of one repository, by branch.
pub struct RepoPrs {
    pub root: String,
    pub prs: TextMap<PrSummary>,
}

/// The dashboard.
pub struct App {
    pub active_tab: DashboardTab,
    /// The agents in view, and the row selected among them.
    pub agents: Vec<AgentPane>,
    pub table_state: TableState,
    pub all_agents: Vec<AgentPane>,
    /// The worktrees in view, and the row selected among them.
    pub worktrees: Vec<WorktreeInfo>,
    pub worktree_table_state: TableState,
    /// The path of the selected worktree, by which the selection survives a new list.
    pub selected_worktree_path: Option<String>,
    /// The worktrees as they were last listed.
    pub all_worktrees: Vec<WorktreeInfo>,
    pub worktree_filter_text: String,
    pub worktree_sort_mode: WorktreeSortMode,
    /// The pull requests of each repository, in the order in which the repositories are searched.
    pub pr_statuses: Vec<RepoPrs>,
    /// What git says of each worktree, by path.
    pub git_statuses: PathMap<GitStatus>,
    /// The root of each known repository with the name of its project, in no particular order.
    pub repo_roots: Vec<ProjectEntry>,
    /// The project whose worktrees are shown instead of the current one: its name and path.
    pub worktree_project_override: Option<(String, String)>,
    pub worktree_all_projects: bool,
    /// The worktree that the dashboard was started in, with the name of its project.
    pub current_worktree: Option<ProjectEntry>,
    /// What the configuration puts before the handle in the name of a window.
    pub window_prefix: String,
    pub is_worktree_fetching: bool,
    pub last_worktree_fetch: i64,
    pub worktree_preview_path: Option<String>,
    pub worktree_preview: Option<String>,
    pub pending_remove: Option<RemovePlan>,
    pub pending_sweep: Option<SweepState>,
    pub sweep_progress: Option<SweepProgress>,
    pub pending_project_picker: Option<ProjectPicker>,
    pub pending_base_picker: Option<BaseBranchPicker>,
    pub pending_add_worktree: Option<AddWorktreeState>,
    /// A message for the status line, and when it was set.
    pub status_message: Option<(String, i64)>,
    /// Whether the dashboard is to close and leave the user where they jumped to.
    pub should_jump: bool,
}

/// How far the refetch timer is set back, in milliseconds.
pub const REFETCH_BACKDATE: i64 = 60_000;

impl App {
    /// The fetch timer's value that makes a refetch due at once.
    pub open spec fn due(now: i64) -> i64 {
        (now - REFETCH_BACKDATE) as i64
    }

    /// Resets the worktree fetch timer, so that a refetch is due at once.
    pub fn trigger_worktree_refetch(&mut self, now: i64)
        requires
            now >= i64::MIN + REFETCH_BACKDATE,
        ensures
            *final(self) == (App { last_worktree_fetch: App::due(now), ..*old(self) }),
    {
        self.last_worktree_fetch = now - REFETCH_BACKDATE;
    }

    /// Whether `scope` is what the tab shows: every known repository's worktrees in the view of all
    /// projects, each root once and in the order of paths; else those of the chosen project.
    pub open spec fn covers(self, scope: FetchScope) -> bool {
        if self.worktree_all_projects {
            &&& scope matches FetchScope::AllProjects(roots)
            &&& order::lists_roots(self.repo_roots@, roots@)
        } else {
            scope == FetchScope::Project(
                match self.worktree_project_override {
                    Some((_, path)) => Some(path),
                    None => None,
                },
            )
        }
    }

    /// Whether `request` lists all that the tab shows, without the pull requests: they are fetched
    /// separately, and looking them up would spoil the terminal.
    pub open spec fn fetches(self, request: FetchRequest) -> bool {
        &&& self.covers(request.scope)
        &&& !request.fetch_pr_status
        &&& request.filter@.len() == 0
    }

    /// Starts a fetch of the worktree list, unless one is under way; the caller performs it, and
    /// reports its end.
    pub fn spawn_worktree_fetch(&mut self) -> (r: Option<FetchRequest>)
        ensures
            *final(self) == (App { is_worktree_fetching: true, ..*old(self) }),
            r is Some <==> !old(self).is_worktree_fetching,
            r matches Some(request) ==> old(self).fetches(request),
    {
        if self.is_worktree_fetching {
            return None;
        }
        self.is_worktree_fetching = true;
        let scope = if self.worktree_all_projects {
            FetchScope::AllProjects(order::sorted_roots(&self.repo_roots))
        } else {
            let path = match &self.worktree_project_override {
                Some(chosen) => Some(chosen.1.clone()),
                None => None,
            };
            FetchScope::Project(path)
        };
        Some(FetchRequest { scope, fetch_pr_status: false, filter: Vec::new() })
    }

    /// A fetch of the worktree list has ended, well or not.
    pub fn finish_worktree_fetch(&mut self)
        ensures
            *final(self) == (App { is_worktree_fetching: false, ..*old(self) }),
    {
        self.is_worktree_fetching = false;
    }

    /// The tab that is not active.
    pub open spec fn other_tab(self) -> DashboardTab {
        match self.active_tab {
            DashboardTab::Agents => DashboardTab::Worktrees,
            DashboardTab::Worktrees => DashboardTab::Agents,
        }
    }

    /// Switches between the tabs; the worktree tab fetches its list at once.
    pub fn switch_tab(&mut self, now: i64) -> (r: Option<FetchRequest>)
        ensures
            old(self).other_tab() == DashboardTab::Agents ==> r is None && *final(self) == (App {
                active_tab: DashboardTab::Agents,
                ..*old(self)
            }),
            old(self).other_tab() == DashboardTab::Worktrees ==> {
                &&& *final(self) == (App {
                    active_tab: DashboardTab::Worktrees,
                    last_worktree_fetch: now,
                    is_worktree_fetching: true,
                    ..*old(self)
                })
                &&& r is Some <==> !old(self).is_worktree_fetching
                &&& r matches Some(request) ==> old(self).fetches(request)
            },
    {
        self.active_tab = match self.active_tab {
            DashboardTab::Agents => DashboardTab::Worktrees,
            DashboardTab::Worktrees => DashboardTab::Agents,
        };
        if self.active_tab == DashboardTab::Worktrees {
            self.last_worktree_fetch = now;
            return self.spawn_worktree_fetch();
        }
        None
    }
}

/// The lists that could be had, one after the other: a repository whose worktrees could not be
/// listed takes nothing from the rest.
pub open spec fn merged(lists: Seq<Option<Vec<WorktreeInfo>>>) -> Seq<WorktreeInfo>
    decreases lists.len(),
{
    if lists.len() == 0 {
        Seq::empty()
    } else {
        merged(lists.drop_last()) + match lists.last() {
            Some(list) => list@,
            None => Seq::empty(),
        }
    }
}

/// Merges the lists of all projects, in order; those that could not be had are left out.
pub fn merge_worktree_lists(lists: Vec<Option<Vec<WorktreeInfo>>>) -> (r: Vec<WorktreeInfo>)
    ensures
        r@ == merged(lists@),
{
    let mut r: Vec<WorktreeInfo> = Vec::new();
    let mut i: usize = 0;
    while i < lists.len()
        invariant
            i <= lists@.len(),
            r@ == merged(lists@.take(i as int)),
        decreases lists@.len() - i,
    {
        if let Some(list) = &lists[i] {
            let mut copy = list.clone();
            assert(copy@ =~= list@);
            r.append(&mut copy);
        }
        assert(lists@.take(i + 1).drop_last() == lists@.take(i as int));
        i = i + 1;
    }
    assert(lists@.take(i as int) == lists@);
    r
}

/// A repository whose worktrees could not be listed changes nothing for the others: the merged
/// view is what the other repositories give.
pub proof fn law_failed_root_is_skipped(
    before: Seq<Option<Vec<WorktreeInfo>>>,
    after: Seq<Option<Vec<WorktreeInfo>>>,
)
    ensures
        merged(before + seq![None::<Vec<WorktreeInfo>>] + after) == merged(before + after),
{
    lemma_merged_add(before + seq![None::<Vec<WorktreeInfo>>], after);
    lemma_merged_add(before, after);
    let with = before + seq![None::<Vec<WorktreeInfo>>];
    assert(with.drop_last() == before);
}

proof fn lemma_merged_add(
    a: Seq<Option<Vec<WorktreeInfo>>>,
    b: Seq<Option<Vec<WorktreeInfo>>>,
)
    ensures
        merged(a + b) == merged(a) + merged(b),
    decreases b.len(),
{
    if b.len() == 0 {
        assert(a + b == a);
    } else {
        lemma_merged_add(a, b.drop_last());
        assert((a + b).drop_last() == a + b.drop_last());
        assert((a + b).last() == b.last());
    }
}

/// Switching tabs twice leads back to the same tab.
pub proof fn law_switching_tabs_undoes(app: App)
    ensures
        (App { active_tab: app.other_tab(), ..app }).other_tab() == app.active_tab,
        app.other_tab() != app.active_tab,
{
}

/// The refetch timer is set back by a minute.
pub proof fn law_refetch_is_due_at_once(now: i64)
    requires
        now >= i64::MIN + 60_000,
    ensures
        App::due(now) + 60_000 == now,
{
}

/// A fetch lists the worktrees of one repository, the chosen one or none in particular, unless all
/// projects are shown: then it lists those of every known root. It looks up no pull requests, and
/// leaves nothing out.
pub proof fn law_fetch_covers_what_is_shown(app: App, request: FetchRequest)
    requires
        app.fetches(request),
    ensures
        !request.fetch_pr_status,
        request.filter@.len() == 0,
        app.worktree_all_projects <==> request.scope is AllProjects,
        request.scope matches FetchScope::AllProjects(roots) ==> order::lists_roots(
            app.repo_roots@,
            roots@,
        ),
        request.scope matches FetchScope::Project(path) ==> {
            &&& path is Some <==> app.worktree_project_override is Some
            &&& app.worktree_project_override matches Some((_, chosen)) ==> path == Some(chosen)
        },
{
}

/// Merging keeps the lists as they are, one after the other: nothing of one that could be had is lost,
/// and one that could not be had adds nothing.
pub proof fn law_merging_keeps_every_list(
    a: Seq<Option<Vec<WorktreeInfo>>>,
    b: Seq<Option<Vec<WorktreeInfo>>>,
    list: Vec<WorktreeInfo>,
)
    ensures
        merged(Seq::empty()) == Seq::<WorktreeInfo>::empty(),
        merged(seq![Some(list)]) == list@,
        merged(seq![None::<Vec<WorktreeInfo>>]) == Seq::<WorktreeInfo>::empty(),
        merged(a + b) == merged(a) + merged(b),
{
    lemma_merged_add(a, b);
    assert(seq![Some(list)].drop_last() =~= Seq::<Option<Vec<WorktreeInfo>>>::empty());
    assert(seq![None::<Vec<WorktreeInfo>>].drop_last() =~= Seq::<
        Option<Vec<WorktreeInfo>>,
    >::empty());
    assert(merged(Seq::empty()) =~= Seq::<WorktreeInfo>::empty());
    assert(merged(seq![Some(list)]) =~= merged(Seq::empty()) + list@);
    assert(merged(seq![None::<Vec<WorktreeInfo>>]) =~= Seq::<WorktreeInfo>::empty());
}

/// The tab that is not active is the other of the two.
pub proof fn law_tabs_are_two(app: App)
    ensures
        app.active_tab is Agents <==> app.other_tab() is Worktrees,
        app.active_tab is Worktrees <==> app.other_tab() is Agents,
{
}

} // verus!
