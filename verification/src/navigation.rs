//! The worktree list: filtering, order, selection, preview and jumping.

use vstd::prelude::*;
use crate::age;
use crate::app::{App, RepoPrs};
use crate::paths;
use crate::picker;
use crate::select;
use crate::text;
use crate::types::{
    AgentPane, JumpRequest, MuxMode, OpenArgs, OpenRequest, PrSummary, SetupFlags, TableState,
    WorktreeInfo, WorktreeSortMode,
};

verus! {

/// The predicate of a worktree at a path.
pub open spec fn at_path(worktrees: Seq<WorktreeInfo>, path: Seq<char>) -> spec_fn(int) -> bool {
    |i: int| paths::same_path(worktrees[i].path@, path)
}

/// Index of the first worktree at a path.
pub open spec fn index_at_path(worktrees: Seq<WorktreeInfo>, path: Seq<char>) -> Option<usize> {
    select::first_index(worktrees.len(), at_path(worktrees, path))
}

/// Index of the first worktree at a path.
pub fn position_of_path(worktrees: &Vec<WorktreeInfo>, path: &String) -> (r: Option<usize>)
    ensures
        r == index_at_path(worktrees@, path@),
        r matches Some(i) ==> i < worktrees@.len(),
{
    let ghost pred = at_path(worktrees@, path@);
    select::find_first(
        worktrees.len(),
        Ghost(pred),
        |i: usize| -> (b: bool)
            requires
                i < worktrees@.len(),
            ensures
                b == pred(i as int)
            { paths::is_same_path(worktrees[i].path.as_str(), path.as_str()) },
    )
}

/// The predicate of an agent at a path.
pub open spec fn agent_at(agents: Seq<AgentPane>, path: Seq<char>) -> spec_fn(int) -> bool {
    |i: int| paths::same_path(agents[i].path@, path)
}

/// Whether two optional paths are the same.
pub open spec fn same_option(a: Option<String>, b: Option<String>) -> bool {
    match (a, b) {
        (Some(x), Some(y)) => paths::same_path(x@, y@),
        (None, None) => true,
        _ => false,
    }
}

fn is_same_option(a: &Option<String>, b: &Option<String>) -> (r: bool)
    ensures
        r == same_option(*a, *b),
{
    match (a, b) {
        (Some(x), Some(y)) => paths::is_same_path(x.as_str(), y.as_str()),
        (None, None) => true,
        _ => false,
    }
}

/// The predicate of a repository that has a pull request for a branch.
pub open spec fn has_pr_for(repos: Seq<RepoPrs>, branch: Seq<char>) -> spec_fn(int) -> bool {
    |i: int| repos[i].prs@.contains_key(branch)
}

/// The pull request for a branch: that of the first repository that has one.
pub open spec fn pr_for(repos: Seq<RepoPrs>, branch: Seq<char>) -> Option<PrSummary> {
    match select::first_index(repos.len(), has_pr_for(repos, branch)) {
        Some(i) => Some(repos[i as int].prs@[branch]),
        None => None,
    }
}

/// The pull request for a branch: that of the first repository that has one.
pub fn find_pr(repos: &Vec<RepoPrs>, branch: &String) -> (r: Option<PrSummary>)
    ensures
        r == pr_for(repos@, branch@),
{
    let ghost pred = has_pr_for(repos@, branch@);
    let found = select::find_first(
        repos.len(),
        Ghost(pred),
        |i: usize| -> (b: bool)
            requires
                i < repos@.len(),
            ensures
                b == pred(i as int)
            { repos[i].prs.get(branch.as_str()).is_some() },
    );
    match found {
        Some(i) => match repos[i].prs.get(branch.as_str()) {
            Some(pr) => Some(pr.clone()),
            None => None,
        },
        None => None,
    }
}

/// A worktree with the pull request for its branch, where it had none; the main worktree gets none.
pub open spec fn with_pr(repos: Seq<RepoPrs>) -> spec_fn(WorktreeInfo) -> WorktreeInfo {
    |w: WorktreeInfo|
        if w.pr_info is Some || w.is_main {
            w
        } else {
            WorktreeInfo { pr_info: pr_for(repos, w.branch@), ..w }
        }
}

/// The predicate of a worktree whose handle or branch the filter lets through.
pub open spec fn shown(filter: Seq<char>) -> spec_fn(WorktreeInfo) -> bool {
    |w: WorktreeInfo| picker::admits(w.handle@, filter) || picker::admits(w.branch@, filter)
}

/// Whether `r` is `s` in the order of a sort mode.
pub open spec fn in_order(
    mode: WorktreeSortMode,
    s: Seq<WorktreeInfo>,
    r: Seq<WorktreeInfo>,
) -> bool {
    match mode {
        WorktreeSortMode::Natural => r == s,
        WorktreeSortMode::Age => age::sorted_by_age(s, r),
    }
}

/// The row after the selected one, past the last the first; without a selection the second.
pub open spec fn next_index(selected: Option<usize>, n: nat) -> usize {
    let i = selected.unwrap_or(0);
    if i >= n - 1 {
        0
    } else {
        (i + 1) as usize
    }
}

/// The row before the selected one, before the first the last; without a selection the last.
pub open spec fn previous_index(selected: Option<usize>, n: nat) -> usize {
    let i = selected.unwrap_or(0);
    if i == 0 {
        (n - 1) as usize
    } else {
        (i - 1) as usize
    }
}

/// A request to open a worktree: its own handle and its own path, whichever repository it belongs
/// to.
pub open spec fn open_request(w: WorktreeInfo) -> OpenRequest {
    OpenRequest { handle: w.handle, path: w.path }
}

/// What opening takes, in the mode that is configured where the worktree is. Nothing of its setup
/// runs but the pane commands; a window that is there is used, and no further setting is given.
pub open spec fn open_args(request: OpenRequest, mode: MuxMode) -> OpenArgs {
    OpenArgs {
        handle: request.handle,
        setup: SetupFlags { hooks: false, files: false, panes: true },
        mode,
        new_window: false,
        further: (None, None, None),
    }
}

/// What opening takes, in the mode that is configured where the worktree is.
pub fn plan_open(request: &OpenRequest, mode: MuxMode) -> (r: OpenArgs)
    ensures
        r == open_args(*request, mode),
{
    OpenArgs {
        handle: request.handle.clone(),
        setup: SetupFlags { hooks: false, files: false, panes: true },
        mode,
        new_window: false,
        further: (None, None, None),
    }
}

impl App {
    /// The selected row.
    pub open spec fn row(self) -> Option<WorktreeInfo> {
        match self.worktree_table_state.selected {
            Some(i) => if i < self.worktrees@.len() {
                Some(self.worktrees@[i as int])
            } else {
                None
            },
            None => None,
        }
    }

    /// The path of the selected row.
    pub open spec fn row_path(self) -> Option<String> {
        match self.row() {
            Some(w) => Some(w.path),
            None => None,
        }
    }

    /// The dashboard with its preview on the selected row.
    pub open spec fn previewed(self) -> App {
        if same_option(self.row_path(), self.worktree_preview_path) {
            self
        } else {
            App { worktree_preview_path: self.row_path(), worktree_preview: None, ..self }
        }
    }

    /// The path whose log the preview has yet to load.
    pub open spec fn preview_request(self) -> Option<String> {
        if same_option(self.row_path(), self.worktree_preview_path) {
            None
        } else {
            self.row_path()
        }
    }

    /// The listed worktrees, with their pull requests, that the filter lets through.
    pub open spec fn listed(self) -> Seq<WorktreeInfo> {
        self.all_worktrees@.map_values(with_pr(self.pr_statuses@)).filter(
            shown(self.worktree_filter_text@),
        )
    }

    /// The dashboard with the row at the selected path selected again. Where that path is gone, the
    /// first row is selected and no path; where nothing was selected, the first row with its path.
    pub open spec fn reselected(self) -> App {
        match self.selected_worktree_path {
            Some(path) => match index_at_path(self.worktrees@, path@) {
                Some(i) => App { worktree_table_state: TableState { selected: Some(i) }, ..self },
                None => App {
                    selected_worktree_path: None,
                    worktree_table_state: TableState {
                        selected: if self.worktrees@.len() == 0 {
                            None
                        } else {
                            Some(0)
                        },
                    },
                    ..self
                },
            },
            None => if self.worktrees@.len() > 0 && self.worktree_table_state.selected is None {
                App {
                    worktree_table_state: TableState { selected: Some(0) },
                    selected_worktree_path: Some(self.worktrees@[0].path),
                    ..self
                }
            } else {
                self
            },
        }
    }

    /// The dashboard with row `i` selected, and its path where there is such a row.
    pub open spec fn at_row(self, i: usize) -> App {
        App {
            worktree_table_state: TableState { selected: Some(i) },
            selected_worktree_path: if i < self.worktrees@.len() {
                Some(self.worktrees@[i as int].path)
            } else {
                None
            },
            ..self
        }
    }

    /// The path of row `i`.
    fn path_of_row(&self, i: usize) -> (r: Option<String>)
        ensures
            r == (if i < self.worktrees@.len() {
                Some(self.worktrees@[i as int].path)
            } else {
                None
            }),
    {
        if i < self.worktrees.len() {
            Some(self.worktrees[i].path.clone())
        } else {
            None
        }
    }

    /// Puts the preview on the selected row; returns the path whose log is to be loaded.
    pub fn update_worktree_preview(&mut self) -> (r: Option<String>)
        ensures
            *final(self) == old(self).previewed(),
            r == old(self).preview_request(),
    {
        let current_path = match self.worktree_table_state.selected() {
            Some(i) => self.path_of_row(i),
            None => None,
        };
        if is_same_option(&current_path, &self.worktree_preview_path) {
            return None;
        }
        self.worktree_preview_path = current_path.clone();
        self.worktree_preview = None;
        current_path
    }

    /// Sorts the worktrees in view by the sort mode.
    pub fn sort_worktrees(&mut self)
        ensures
            in_order(old(self).worktree_sort_mode, old(self).worktrees@, final(self).worktrees@),
            *final(self) == (App { worktrees: final(self).worktrees, ..*old(self) }),
    {
        match self.worktree_sort_mode {
            WorktreeSortMode::Natural => {},
            WorktreeSortMode::Age => {
                age::sort_by_age(&mut self.worktrees);
            },
        }
    }

    /// The worktrees of the list, each with its pull request, that the filter lets through.
    fn list_worktrees(&self) -> (r: Vec<WorktreeInfo>)
        ensures
            r@ == self.listed(),
    {
        let ghost all = self.all_worktrees@.map_values(with_pr(self.pr_statuses@));
        let ghost pred = shown(self.worktree_filter_text@);
        let mut r: Vec<WorktreeInfo> = Vec::new();
        let mut i: usize = 0;
        proof {
            reveal(Seq::filter);
        }
        while i < self.all_worktrees.len()
            invariant
                i <= self.all_worktrees@.len(),
                all == self.all_worktrees@.map_values(with_pr(self.pr_statuses@)),
                pred == shown(self.worktree_filter_text@),
                r@ == all.take(i as int).filter(pred),
            decreases self.all_worktrees@.len() - i,
        {
            let mut w = self.all_worktrees[i].clone();
            if w.pr_info.is_none() && !w.is_main {
                w.pr_info = find_pr(&self.pr_statuses, &w.branch);
            }
            assert(w == all[i as int]);
            let filter = self.worktree_filter_text.as_str();
            let keep = picker::is_admitted(w.handle.as_str(), filter) || picker::is_admitted(
                w.branch.as_str(),
                filter,
            );
            proof {
                reveal(Seq::filter);
                assert(all.take(i + 1).drop_last() == all.take(i as int));
                assert(all.take(i + 1).last() == w);
            }
            if keep {
                r.push(w);
            }
            i = i + 1;
        }
        assert(all.take(i as int) == all);
        r
    }

    /// Applies the filter and the order to the listed worktrees, and restores the selection.
    /// Returns the path whose log the preview is to load.
    pub fn apply_worktree_filters(&mut self) -> (r: Option<String>)
        ensures
            in_order(
                old(self).worktree_sort_mode,
                old(self).listed(),
                final(self).worktrees@,
            ),
            *final(self) == (App {
                worktrees: final(self).worktrees,
                ..*old(self)
            }).reselected().previewed(),
            r == (App {
                worktrees: final(self).worktrees,
                ..*old(self)
            }).reselected().preview_request(),
    {
        self.worktrees = self.list_worktrees();
        self.sort_worktrees();
        let found = match &self.selected_worktree_path {
            Some(path) => position_of_path(&self.worktrees, path),
            None => None,
        };
        if self.selected_worktree_path.is_some() {
            if found.is_some() {
                self.worktree_table_state.select(found);
            } else {
                self.selected_worktree_path = None;
                if self.worktrees.is_empty() {
                    self.worktree_table_state.select(None);
                } else {
                    self.worktree_table_state.select(Some(0));
                }
            }
        } else if !self.worktrees.is_empty() && self.worktree_table_state.selected().is_none() {
            self.worktree_table_state.select(Some(0));
            self.selected_worktree_path = self.path_of_row(0);
        }
        self.update_worktree_preview()
    }

    /// Cycles to the next sort mode. Returns the mode, which is to be saved, and the path whose log
    /// the preview is to load.
    pub fn cycle_worktree_sort_mode(&mut self) -> (r: (WorktreeSortMode, Option<String>))
        ensures
            r.0 == old(self).worktree_sort_mode.spec_next(),
            in_order(r.0, old(self).listed(), final(self).worktrees@),
            *final(self) == (App {
                worktree_sort_mode: r.0,
                worktrees: final(self).worktrees,
                ..*old(self)
            }).reselected().previewed(),
            r.1 == (App {
                worktree_sort_mode: r.0,
                worktrees: final(self).worktrees,
                ..*old(self)
            }).reselected().preview_request(),
    {
        let mode = self.worktree_sort_mode.next();
        self.worktree_sort_mode = mode;
        let preview = self.apply_worktree_filters();
        (mode, preview)
    }

    /// Selects the next row, after the last the first. Returns the path whose log the preview is to
    /// load.
    pub fn worktree_next(&mut self) -> (r: Option<String>)
        ensures
            old(self).worktrees@.len() == 0 ==> *final(self) == *old(self) && r is None,
            old(self).worktrees@.len() > 0 ==> {
                let moved = old(self).at_row(
                    next_index(
                        old(self).worktree_table_state.selected,
                        old(self).worktrees@.len(),
                    ),
                );
                *final(self) == moved.previewed() && r == moved.preview_request()
            },
    {
        if self.worktrees.is_empty() {
            return None;
        }
        let i: usize = self.worktree_table_state.selected().unwrap_or(0);
        let next: usize = if i >= self.worktrees.len() - 1 {
            0
        } else {
            i + 1
        };
        self.worktree_table_state.select(Some(next));
        self.selected_worktree_path = self.path_of_row(next);
        self.update_worktree_preview()
    }

    /// Selects the previous row, before the first the last. Returns the path whose log the preview
    /// is to load.
    pub fn worktree_previous(&mut self) -> (r: Option<String>)
        ensures
            old(self).worktrees@.len() == 0 ==> *final(self) == *old(self) && r is None,
            old(self).worktrees@.len() > 0 ==> {
                let moved = old(self).at_row(
                    previous_index(
                        old(self).worktree_table_state.selected,
                        old(self).worktrees@.len(),
                    ),
                );
                *final(self) == moved.previewed() && r == moved.preview_request()
            },
    {
        if self.worktrees.is_empty() {
            return None;
        }
        let i: usize = self.worktree_table_state.selected().unwrap_or(0);
        let prev: usize = if i == 0 {
            self.worktrees.len() - 1
        } else {
            i - 1
        };
        self.worktree_table_state.select(Some(prev));
        self.selected_worktree_path = self.path_of_row(prev);
        self.update_worktree_preview()
    }

    /// The request to open the selected worktree.
    pub open spec fn open_target(self) -> Option<OpenRequest> {
        match self.row() {
            Some(w) => Some(open_request(w)),
            None => None,
        }
    }

    /// Where a jump to the selected worktree leads: the pane of the first agent at work there, or
    /// else its window or session.
    pub open spec fn jump_target(self) -> Option<JumpRequest> {
        match self.row() {
            Some(w) => match select::first_index(
                self.all_agents@.len(),
                agent_at(self.all_agents@, w.path@),
            ) {
                Some(i) => Some(JumpRequest::SwitchToPane(self.all_agents@[i as int].pane_id)),
                None => Some(JumpRequest::Open(open_request(w))),
            },
            None => None,
        }
    }

    /// Asks for the selected worktree's window or session to be opened.
    pub fn open_selected_worktree(&self) -> (r: Option<OpenRequest>)
        ensures
            r == self.open_target(),
    {
        match self.worktree_table_state.selected() {
            Some(i) => {
                if i >= self.worktrees.len() {
                    return None;
                }
                let handle = self.worktrees[i].handle.clone();
                let path = self.worktrees[i].path.clone();
                Some(OpenRequest { handle, path })
            },
            None => None,
        }
    }

    /// The outcome of opening a worktree: the dashboard closes where it was opened.
    pub fn finish_open(&mut self, opened: bool)
        ensures
            *final(self) == (App { should_jump: old(self).should_jump || opened, ..*old(self) }),
    {
        if opened {
            self.should_jump = true;
        }
    }

    /// Asks for a jump to the selected worktree's agent, or else to its window or session.
    pub fn jump_to_selected_worktree(&self) -> (r: Option<JumpRequest>)
        ensures
            r == self.jump_target(),
    {
        let selected: usize = match self.worktree_table_state.selected() {
            Some(i) => i,
            None => {
                return None;
            },
        };
        if selected >= self.worktrees.len() {
            return None;
        }
        let path = &self.worktrees[selected].path;
        let agents = &self.all_agents;
        let ghost pred = agent_at(agents@, path@);
        let found = select::find_first(
            agents.len(),
            Ghost(pred),
            |i: usize| -> (b: bool)
                requires
                    i < agents@.len(),
                ensures
                    b == pred(i as int)
                { paths::is_same_path(agents[i].path.as_str(), path.as_str()) },
        );
        if let Some(i) = found {
            return Some(JumpRequest::SwitchToPane(agents[i].pane_id.clone()));
        }
        match self.open_selected_worktree() {
            Some(request) => Some(JumpRequest::Open(request)),
            None => None,
        }
    }

    /// Selects the row at `index` and asks for a jump to it; past the end of the list, nothing
    /// happens.
    pub fn worktree_jump_to_index(&mut self, index: usize) -> (r: Option<JumpRequest>)
        ensures
            index < old(self).worktrees@.len() ==> *final(self) == old(self).at_row(index) && r
                == old(self).at_row(index).jump_target(),
            index >= old(self).worktrees@.len() ==> *final(self) == *old(self) && r is None,
    {
        if index < self.worktrees.len() {
            self.worktree_table_state.select(Some(index));
            self.selected_worktree_path = self.path_of_row(index);
            return self.jump_to_selected_worktree();
        }
        None
    }

    /// The path that project-level operations work on: in the view of all projects that of the
    /// selected row; else, or without one, that of the chosen project, of the current worktree or
    /// of the first row, whichever comes first.
    pub open spec fn repo_path(self) -> Option<String> {
        if self.worktree_all_projects && self.row() is Some {
            self.row_path()
        } else if let Some((_, path)) = self.worktree_project_override {
            Some(path)
        } else if let Some(current) = self.current_worktree {
            Some(current.path)
        } else if self.worktrees@.len() > 0 {
            Some(self.worktrees@[0].path)
        } else {
            None
        }
    }

    /// The path that project-level operations work on.
    pub fn worktree_repo_path(&self) -> (r: Option<String>)
        ensures
            r == self.repo_path(),
    {
        if self.worktree_all_projects {
            if let Some(i) = self.worktree_table_state.selected() {
                if i < self.worktrees.len() {
                    return self.path_of_row(i);
                }
            }
        }
        if let Some(chosen) = &self.worktree_project_override {
            return Some(chosen.1.clone());
        }
        if let Some(current) = &self.current_worktree {
            return Some(current.path.clone());
        }
        self.path_of_row(0)
    }
}

/// Stepping back takes back a step forward, and a step forward a step back, also past either end.
pub proof fn law_next_and_previous_undo(i: usize, n: nat)
    requires
        i < n,
        n <= usize::MAX,
    ensures
        next_index(Some(i), n) < n,
        previous_index(Some(i), n) < n,
        previous_index(Some(next_index(Some(i), n)), n) == i,
        next_index(Some(previous_index(Some(i), n)), n) == i,
{
}

/// The row that `steps` steps forward lead to.
pub open spec fn nth_next(i: usize, n: nat, steps: nat) -> usize
    decreases steps,
{
    if steps == 0 {
        i
    } else {
        next_index(Some(nth_next(i, n, (steps - 1) as nat)), n)
    }
}

/// Steps forward go round the list: any number of them leads as far round as it is long, and as
/// many as there are rows lead back to where they began.
pub proof fn law_next_goes_round(i: usize, n: nat, steps: nat)
    requires
        i < n,
        n <= usize::MAX,
    ensures
        nth_next(i, n, steps) == (i + steps) % (n as int),
        nth_next(i, n, n) == i,
{
    lemma_next_goes_round(i, n, steps);
    lemma_next_goes_round(i, n, n);
    vstd::arithmetic::div_mod::lemma_mod_add_multiples_vanish(i as int, n as int);
    vstd::arithmetic::div_mod::lemma_small_mod(i as nat, n);
}

proof fn lemma_next_goes_round(i: usize, n: nat, steps: nat)
    requires
        i < n,
        n <= usize::MAX,
    ensures
        nth_next(i, n, steps) == (i + steps) % (n as int),
        nth_next(i, n, steps) < n,
    decreases steps,
{
    let m = n as int;
    if steps == 0 {
        vstd::arithmetic::div_mod::lemma_small_mod(i as nat, n);
    } else {
        lemma_next_goes_round(i, n, (steps - 1) as nat);
        let x = i + steps - 1;
        let k = nth_next(i, n, (steps - 1) as nat);
        vstd::arithmetic::div_mod::lemma_add_mod_noop(x, 1, m);
        assert((x + 1) % m == (k as int + 1int % m) % m);
        if n == 1 {
            assert((x + 1) % m == 0);
        } else {
            vstd::arithmetic::div_mod::lemma_small_mod(1, n);
            if k == n - 1 {
                vstd::arithmetic::div_mod::lemma_mod_self_0(m);
            } else {
                vstd::arithmetic::div_mod::lemma_small_mod((k + 1) as nat, n);
            }
        }
    }
}

/// Wherever the cursor is moved in the list, the selected path is that of the selected row, and so
/// is the preview's.
pub proof fn law_selection_follows_the_row(app: App, i: usize)
    requires
        i < app.worktrees@.len(),
    ensures
        app.at_row(i).row() == Some(app.worktrees@[i as int]),
        app.at_row(i).selected_worktree_path == app.at_row(i).row_path(),
        app.at_row(i).previewed().row_path() == app.at_row(i).row_path(),
        same_option(
            app.at_row(i).previewed().worktree_preview_path,
            app.at_row(i).row_path(),
        ),
        app.at_row(i).previewed().preview_request() is None,
{
}

/// The selection survives a new list by its path: where the list holds the selected path, a row at
/// that path is selected afterwards.
pub proof fn law_selection_survives_a_new_list(app: App, path: String)
    requires
        app.selected_worktree_path == Some(path),
        exists|i: int|
            0 <= i < app.worktrees@.len() && paths::same_path(
                (#[trigger] app.worktrees@[i]).path@,
                path@,
            ),
    ensures
        app.reselected().row() matches Some(w) && paths::same_path(w.path@, path@),
        app.reselected().selected_worktree_path == Some(path),
{
    let pred = at_path(app.worktrees@, path@);
    let i = choose|i: int|
        0 <= i < app.worktrees@.len() && paths::same_path(
            (#[trigger] app.worktrees@[i]).path@,
            path@,
        );
    assert(pred(i));
    assert(app.worktrees@.len() == app.worktrees.len());
    select::lemma_first_index(app.worktrees@.len(), pred);
}

/// Where a path was selected, or no row at all, restoring the selection selects a row of the list;
/// in an empty list none is selected.
pub proof fn law_reselection_is_in_the_list(app: App)
    requires
        app.selected_worktree_path is Some || app.worktree_table_state.selected is None,
    ensures
        app.worktrees@.len() > 0 ==> app.reselected().row() is Some,
        app.worktrees@.len() == 0 ==> app.reselected().worktree_table_state.selected is None,
{
    assert(app.worktrees@.len() == app.worktrees.len());
    if let Some(path) = app.selected_worktree_path {
        select::lemma_first_index(app.worktrees@.len(), at_path(app.worktrees@, path@));
    }
}

/// The rows in view are the listed worktrees that the filter lets through, each with its pull
/// request, in whichever order.
pub proof fn law_rows_are_what_the_filter_lets_through(
    app: App,
    mode: WorktreeSortMode,
    rows: Seq<WorktreeInfo>,
    w: WorktreeInfo,
)
    requires
        in_order(mode, app.listed(), rows),
    ensures
        rows.contains(w) <==> shown(app.worktree_filter_text@)(w) && exists|a: WorktreeInfo|
            #[trigger] app.all_worktrees@.contains(a) && w == with_pr(app.pr_statuses@)(a),
{
    let f = with_pr(app.pr_statuses@);
    let pred = shown(app.worktree_filter_text@);
    let all = app.all_worktrees@;
    let mapped = all.map_values(f);
    if mode == WorktreeSortMode::Age {
        age::law_sorting_keeps_worktrees(app.listed(), rows, w);
    }
    if app.listed().contains(w) {
        let k = choose|k: int| 0 <= k < app.listed().len() && app.listed()[k] == w;
        mapped.lemma_filter_pred(pred, k);
        mapped.lemma_filter_contains_rev(pred, w);
        let i = choose|i: int| 0 <= i < mapped.len() && mapped[i] == w;
        assert(all.contains(all[i]));
    }
    if pred(w) && (exists|a: WorktreeInfo| #[trigger] all.contains(a) && w == f(a)) {
        let a = choose|a: WorktreeInfo| #[trigger] all.contains(a) && w == f(a);
        let i = choose|i: int| 0 <= i < all.len() && all[i] == a;
        assert(mapped[i] == w);
        mapped.lemma_filter_contains(pred, i);
    }
}

/// Merging pull requests touches nothing else of a worktree, keeps the one it has, and gives the
/// main worktree none.
pub proof fn law_merging_prs_fills_gaps(repos: Seq<RepoPrs>, w: WorktreeInfo)
    ensures
        with_pr(repos)(w) == (WorktreeInfo { pr_info: with_pr(repos)(w).pr_info, ..w }),
        w.pr_info is Some || w.is_main ==> with_pr(repos)(w) == w,
        with_pr(repos)(with_pr(repos)(w)) == with_pr(repos)(w),
{
}

/// Applying the filters again changes nothing: the same rows come out, and everything else of the
/// dashboard stays as it is, with nothing new to preview.
pub proof fn law_filters_are_idempotent(
    before: App,
    once: App,
    rows: Vec<WorktreeInfo>,
)
    requires
        in_order(before.worktree_sort_mode, before.listed(), once.worktrees@),
        once == (App { worktrees: once.worktrees, ..before }).reselected().previewed(),
        in_order(once.worktree_sort_mode, once.listed(), rows@),
    ensures
        rows@ == once.worktrees@,
        (App { worktrees: rows, ..once }).reselected().previewed() == (App {
            worktrees: rows,
            ..once
        }),
        (App { worktrees: rows, ..once }).reselected().preview_request() is None,
{
    assert(once.listed() == before.listed());
    if before.worktree_sort_mode == WorktreeSortMode::Age {
        age::law_sorted_by_age_unique(before.listed(), once.worktrees@, rows@);
    }
    let s = once.worktrees@;
    assert(s.len() == once.worktrees.len());
    if let Some(path) = before.selected_worktree_path {
        select::lemma_first_index(s.len(), at_path(s, path@));
    }
    if before.selected_worktree_path is None && s.len() > 0
        && before.worktree_table_state.selected is None {
        let pred = at_path(s, s[0].path@);
        assert(pred(0));
        select::lemma_first_found(s.len(), pred, 0);
    }
}

/// A row is found at a path exactly where it is the first whose path has those components.
pub proof fn law_row_at_a_path(worktrees: Vec<WorktreeInfo>, path: Seq<char>, i: int)
    ensures
        0 <= i < worktrees@.len() && paths::same_path(worktrees@[i].path@, path) && (forall|j: int|
            0 <= j < i ==> !paths::same_path((#[trigger] worktrees@[j]).path@, path))
            ==> index_at_path(worktrees@, path) == Some(i as usize),
        (forall|j: int|
            0 <= j < worktrees@.len() ==> !paths::same_path(
                (#[trigger] worktrees@[j]).path@,
                path,
            )) ==> index_at_path(worktrees@, path) is None,
        index_at_path(worktrees@, path) matches Some(k) ==> k < worktrees@.len()
            && paths::same_path(worktrees@[k as int].path@, path),
{
    let pred = at_path(worktrees@, path);
    assert(worktrees@.len() == worktrees.len());
    select::lemma_first_index(worktrees@.len(), pred);
    if 0 <= i < worktrees@.len() && paths::same_path(worktrees@[i].path@, path) && (forall|j: int|
        0 <= j < i ==> !paths::same_path((#[trigger] worktrees@[j]).path@, path)) {
        assert(pred(i));
        assert forall|j: int| 0 <= j < i implies !(#[trigger] pred(j)) by {
            assert(!paths::same_path(worktrees@[j].path@, path));
        }
        select::lemma_first_found(worktrees@.len(), pred, i);
    }
    if let Some(k) = index_at_path(worktrees@, path) {
        assert(pred(k as int));
    }
}

/// One listed worktree more is one row more exactly where its handle or its branch contains the filter
/// in lower case, or the filter is empty, whatever else holds of the worktree; the row is that worktree,
/// with a pull request at most, and the rows before it stay. Of no worktrees there are no rows.
pub proof fn law_rows_go_by_handle_and_branch(app: App, more: App, w: WorktreeInfo)
    requires
        more.all_worktrees@ == app.all_worktrees@.push(w),
        more.pr_statuses == app.pr_statuses,
        more.worktree_filter_text == app.worktree_filter_text,
    ensures
        app.all_worktrees@.len() == 0 ==> app.listed().len() == 0,
        ({
            let filter = text::lowercase(app.worktree_filter_text@);
            let shows = app.worktree_filter_text@.len() == 0 || (exists|a: Seq<char>, b: Seq<char>|
                text::lowercase(w.handle@) == #[trigger] (a + filter + b)) || (exists|
                a: Seq<char>,
                b: Seq<char>,
            | text::lowercase(w.branch@) == #[trigger] (a + filter + b));
            &&& !shows ==> more.listed() == app.listed()
            &&& shows ==> {
                let row = more.listed().last();
                &&& more.listed() == app.listed().push(row)
                &&& row.branch == w.branch
                &&& row.path == w.path
                &&& row.handle == w.handle
                &&& row.is_main == w.is_main
                &&& row.mode == w.mode
                &&& row.has_mux_window == w.has_mux_window
                &&& row.has_unmerged == w.has_unmerged
                &&& row.created_at == w.created_at
                &&& row.base_branch == w.base_branch
                &&& row.pr_info == with_pr(app.pr_statuses@)(w).pr_info
            }
        }),
{
    reveal(Seq::filter);
    let f = with_pr(app.pr_statuses@);
    let pred = shown(app.worktree_filter_text@);
    let all = app.all_worktrees@.map_values(f);
    let longer = more.all_worktrees@.map_values(f);
    assert(longer.drop_last() =~= all);
    assert(longer.last() == f(w));
    picker::law_filters_go_by_lower_case(w.handle@, app.worktree_filter_text@);
    picker::law_filters_go_by_lower_case(w.branch@, app.worktree_filter_text@);
}

/// With an empty filter every listed worktree is in view, each at its own place before sorting, and in
/// whichever order the rows are as many.
pub proof fn law_empty_filter_shows_everything(
    app: App,
    mode: WorktreeSortMode,
    rows: Seq<WorktreeInfo>,
    i: int,
)
    requires
        app.worktree_filter_text@.len() == 0,
        in_order(mode, app.listed(), rows),
        0 <= i < app.all_worktrees@.len(),
    ensures
        app.listed().len() == app.all_worktrees@.len(),
        rows.len() == app.all_worktrees@.len(),
        app.listed()[i].path == app.all_worktrees@[i].path,
        app.listed()[i].branch == app.all_worktrees@[i].branch,
        app.listed()[i].handle == app.all_worktrees@[i].handle,
        exists|k: int|
            0 <= k < rows.len() && (#[trigger] rows[k]).path == app.all_worktrees@[i].path
                && rows[k].branch == app.all_worktrees@[i].branch && rows[k].handle
                == app.all_worktrees@[i].handle,
{
    let f = with_pr(app.pr_statuses@);
    let pred = shown(app.worktree_filter_text@);
    let all = app.all_worktrees@.map_values(f);
    assert forall|w: WorktreeInfo| #[trigger] pred(w) by {}
    lemma_keep_all(all, pred);
    assert(app.listed() == all);
    if mode == WorktreeSortMode::Age {
        age::law_sorted_rows_go_by_creation(app.listed(), rows, None);
        age::law_sorting_keeps_worktrees(app.listed(), rows, all[i]);
        assert(app.listed().contains(all[i]));
    } else {
        assert(rows[i] == all[i]);
    }
    assert(rows.contains(all[i]));
    let k = choose|k: int| 0 <= k < rows.len() && rows[k] == all[i];
    assert(rows[k].path == app.all_worktrees@[i].path);
}

proof fn lemma_keep_all(s: Seq<WorktreeInfo>, pred: spec_fn(WorktreeInfo) -> bool)
    requires
        forall|w: WorktreeInfo| #[trigger] pred(w),
    ensures
        s.filter(pred) == s,
    decreases s.len(),
{
    reveal(Seq::filter);
    if s.len() > 0 {
        lemma_keep_all(s.drop_last(), pred);
        assert(pred(s.last()));
        assert(s.drop_last().push(s.last()) =~= s);
    }
}

/// In view are exactly the listed worktrees whose handle or branch contains a filter in lower case,
/// whatever else holds of them.
pub proof fn law_row_is_in_view_by_its_name(
    app: App,
    mode: WorktreeSortMode,
    rows: Seq<WorktreeInfo>,
    a: WorktreeInfo,
)
    requires
        app.worktree_filter_text@.len() > 0,
        in_order(mode, app.listed(), rows),
        app.all_worktrees@.contains(a),
    ensures
        rows.contains(with_pr(app.pr_statuses@)(a)) <==> text::has_part(
            text::lowercase(a.handle@),
            text::lowercase(app.worktree_filter_text@),
        ) || text::has_part(
            text::lowercase(a.branch@),
            text::lowercase(app.worktree_filter_text@),
        ),
{
    let w = with_pr(app.pr_statuses@)(a);
    law_rows_are_what_the_filter_lets_through(app, mode, rows, w);
}

/// A worktree without a pull request gets the one for its branch in the first repository that has one,
/// and none where none has; the main worktree and one that has a pull request stay as they are.
pub proof fn law_first_repository_gives_the_pr(repos: Vec<RepoPrs>, w: WorktreeInfo, i: int)
    ensures
        w.pr_info is Some || w.is_main ==> with_pr(repos@)(w) == w,
        w.pr_info is None && !w.is_main ==> {
            let got = with_pr(repos@)(w).pr_info;
            &&& 0 <= i < repos@.len() && repos@[i].prs@.contains_key(w.branch@) && (forall|j: int|
                0 <= j < i ==> !(#[trigger] repos@[j]).prs@.contains_key(w.branch@)) ==> got
                == Some(repos@[i].prs@[w.branch@])
            &&& (forall|j: int|
                0 <= j < repos@.len() ==> !(#[trigger] repos@[j]).prs@.contains_key(w.branch@))
                ==> got is None
        },
{
    let pred = has_pr_for(repos@, w.branch@);
    assert(repos@.len() == repos.len());
    if 0 <= i < repos@.len() && repos@[i].prs@.contains_key(w.branch@) && (forall|j: int|
        0 <= j < i ==> !(#[trigger] repos@[j]).prs@.contains_key(w.branch@)) {
        assert forall|j: int| 0 <= j < i implies !(#[trigger] pred(j)) by {
            assert(!repos@[j].prs@.contains_key(w.branch@));
        }
        select::lemma_first_found(repos@.len(), pred, i);
    }
    if forall|j: int| 0 <= j < repos@.len() ==> !(#[trigger] repos@[j]).prs@.contains_key(w.branch@) {
        assert forall|j: int| 0 <= j < repos@.len() implies !(#[trigger] pred(j)) by {
            assert(!repos@[j].prs@.contains_key(w.branch@));
        }
        select::lemma_none_found(repos@.len(), pred);
    }
}

/// In the order that git gives, rows stay as they are; by age, the newest come first.
pub proof fn law_rows_are_in_order(
    mode: WorktreeSortMode,
    s: Seq<WorktreeInfo>,
    r: Seq<WorktreeInfo>,
)
    ensures
        mode == WorktreeSortMode::Natural ==> (in_order(mode, s, r) <==> r == s),
        mode == WorktreeSortMode::Age ==> (in_order(mode, s, r) <==> age::sorted_by_age(s, r)),
        in_order(mode, s, r) ==> r.len() == s.len(),
{
    if mode == WorktreeSortMode::Age && in_order(mode, s, r) {
        age::law_sorted_rows_go_by_creation(s, r, None);
    }
}

/// A step forward goes to the next row, past the last to the first; a step back goes to the previous
/// one, before the first to the last. Without a selection both count from the first.
pub proof fn law_steps_go_to_the_neighbour(i: usize, n: nat)
    requires
        0 < n <= usize::MAX,
    ensures
        i + 1 < n ==> next_index(Some(i), n) == i + 1,
        i + 1 >= n ==> next_index(Some(i), n) == 0,
        next_index(None, n) == next_index(Some(0), n),
        i > 0 ==> previous_index(Some(i), n) == i - 1,
        previous_index(Some(0), n) == n - 1,
        previous_index(None, n) == n - 1,
{
}

/// The row at the cursor is the one that the cursor counts to, and moving the cursor changes nothing but
/// the cursor and the selected path, which is that row's.
pub proof fn law_cursor_counts_the_rows(app: App, i: usize)
    ensures
        app.row() == (match app.worktree_table_state.selected {
            Some(k) if k < app.worktrees@.len() => Some(app.worktrees@[k as int]),
            _ => None,
        }),
        app.row_path() is Some <==> app.row() is Some,
        app.row() matches Some(w) ==> app.row_path() == Some(w.path),
        app.at_row(i) == (App {
            worktree_table_state: app.at_row(i).worktree_table_state,
            selected_worktree_path: app.at_row(i).selected_worktree_path,
            ..app
        }),
        app.at_row(i).worktree_table_state.selected == Some(i),
        i < app.worktrees@.len() ==> app.at_row(i).selected_worktree_path == Some(
            app.worktrees@[i as int].path,
        ),
        i >= app.worktrees@.len() ==> app.at_row(i).selected_worktree_path is None,
{
}

/// The preview follows the row: where it is on that path it stays, else it moves there, is emptied, and
/// asks for the log of that row, if there is one. Nothing else changes.
pub proof fn law_preview_follows_the_row(app: App)
    ensures
        ({
            let after = app.previewed();
            let there = match (app.row(), app.worktree_preview_path) {
                (Some(w), Some(path)) => paths::same_path(w.path@, path@),
                (None, None) => true,
                _ => false,
            };
            &&& there ==> after == app && app.preview_request() is None
            &&& !there ==> {
                &&& after == (App {
                    worktree_preview_path: after.worktree_preview_path,
                    worktree_preview: None,
                    ..app
                })
                &&& after.worktree_preview_path == app.preview_request()
                &&& app.preview_request() is Some <==> app.row() is Some
                &&& app.row() matches Some(w) ==> app.preview_request() == Some(w.path)
            }
        }),
{
}

/// The selection is restored by its path: the first row at the selected path is selected. Where there is
/// none, no path is selected, and the first row, or none in an empty list. Where no path and no row were
/// selected, the first row is, with its path. Nothing else changes.
pub proof fn law_selection_is_restored_by_path(app: App, path: String, i: int)
    requires
        app.selected_worktree_path is Some ==> app.selected_worktree_path == Some(path),
    ensures
        ({
            let after = app.reselected();
            let rows = app.worktrees@;
            &&& after == (App {
                worktree_table_state: after.worktree_table_state,
                selected_worktree_path: after.selected_worktree_path,
                ..app
            })
            &&& app.selected_worktree_path is Some ==> {
                &&& 0 <= i < rows.len() && paths::same_path(rows[i].path@, path@) && (forall|j: int|
                    0 <= j < i ==> !paths::same_path((#[trigger] rows[j]).path@, path@)) ==> {
                    &&& after.worktree_table_state.selected == Some(i as usize)
                    &&& after.selected_worktree_path == Some(path)
                }
                &&& (forall|j: int|
                    0 <= j < rows.len() ==> !paths::same_path((#[trigger] rows[j]).path@, path@))
                    ==> {
                    &&& after.selected_worktree_path is None
                    &&& rows.len() == 0 ==> after.worktree_table_state.selected is None
                    &&& rows.len() > 0 ==> after.worktree_table_state.selected == Some(0usize)
                }
            }
            &&& app.selected_worktree_path is None ==> {
                if app.worktree_table_state.selected is None && rows.len() > 0 {
                    &&& after.worktree_table_state.selected == Some(0usize)
                    &&& after.selected_worktree_path == Some(rows[0].path)
                } else {
                    after == app
                }
            }
        }),
{
    law_row_at_a_path(app.worktrees, path@, i);
}

/// Opening is about the row at the cursor, by its own handle and at its own path; nothing of its setup
/// runs but the pane commands, in the mode that is given, and no new window is asked for.
pub proof fn law_opening_is_about_the_cursor(app: App, request: OpenRequest, mode: MuxMode)
    ensures
        app.open_target() is Some <==> app.row() is Some,
        app.row() matches Some(w) ==> {
            &&& app.open_target() matches Some(target)
            &&& target.handle == w.handle
            &&& target.path == w.path
        },
        open_args(request, mode).handle == request.handle,
        open_args(request, mode).mode == mode,
        !open_args(request, mode).setup.hooks,
        !open_args(request, mode).setup.files,
        open_args(request, mode).setup.panes,
        !open_args(request, mode).new_window,
        open_args(request, mode).further == (None::<String>, None::<String>, None::<String>),
{
}

/// A jump leads to the pane of the first agent that works at the path of the row at the cursor, and to
/// the row's window or session where none does.
pub proof fn law_jump_prefers_the_first_agent(app: App, i: int)
    ensures
        app.row() is None ==> app.jump_target() is None,
        app.row() matches Some(w) ==> {
            let agents = app.all_agents@;
            &&& 0 <= i < agents.len() && paths::same_path(agents[i].path@, w.path@) && (forall|
                j: int,
            |
                0 <= j < i ==> !paths::same_path((#[trigger] agents[j]).path@, w.path@))
                ==> app.jump_target() == Some(JumpRequest::SwitchToPane(agents[i].pane_id))
            &&& (forall|j: int|
                0 <= j < agents.len() ==> !paths::same_path((#[trigger] agents[j]).path@, w.path@))
                ==> (app.jump_target() matches Some(JumpRequest::Open(request)) && request.handle
                == w.handle && request.path == w.path)
        },
{
    if let Some(w) = app.row() {
        let agents = app.all_agents@;
        let pred = agent_at(agents, w.path@);
        assert(agents.len() == app.all_agents.len());
        if 0 <= i < agents.len() && paths::same_path(agents[i].path@, w.path@) && (forall|j: int|
            0 <= j < i ==> !paths::same_path((#[trigger] agents[j]).path@, w.path@)) {
            assert forall|j: int| 0 <= j < i implies !(#[trigger] pred(j)) by {
                assert(!paths::same_path(agents[j].path@, w.path@));
            }
            select::lemma_first_found(agents.len(), pred, i);
        }
        if forall|j: int|
            0 <= j < agents.len() ==> !paths::same_path((#[trigger] agents[j]).path@, w.path@) {
            assert forall|j: int| 0 <= j < agents.len() implies !(#[trigger] pred(j)) by {
                assert(!paths::same_path(agents[j].path@, w.path@));
            }
            select::lemma_none_found(agents.len(), pred);
        }
    }
}

/// Operations on a project work where the view of all projects has its cursor; else on the chosen
/// project, the current worktree or the first row, in this order.
pub proof fn law_project_operations_have_a_place(app: App)
    ensures
        app.worktree_all_projects && app.row() is Some ==> app.repo_path() == Some(app.row()->0.path),
        !(app.worktree_all_projects && app.row() is Some) ==> {
            &&& app.worktree_project_override matches Some((_, path)) ==> app.repo_path() == Some(path)
            &&& app.worktree_project_override is None ==> {
                &&& app.current_worktree matches Some(current) ==> app.repo_path() == Some(
                    current.path,
                )
                &&& app.current_worktree is None && app.worktrees@.len() > 0 ==> app.repo_path()
                    == Some(app.worktrees@[0].path)
                &&& app.current_worktree is None && app.worktrees@.len() == 0 ==> app.repo_path() is None
            }
        },
{
}

} // verus!
