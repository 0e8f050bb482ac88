//! Removing a worktree, which waits for confirmation, and closing its window.

use vstd::prelude::*;
use crate::app::App;
use crate::navigation;
use crate::paths;
use crate::types::{
    CloseRequest, DashboardTab, RemovePlan, RemoveRequest, TableState, WorktreeInfo,
};

verus! {

impl RemovePlan {
    /// The plan with the choice to keep the branch turned round.
    pub open spec fn toggled(self) -> RemovePlan {
        RemovePlan { keep_branch: !self.keep_branch, ..self }
    }

    /// The plan with force armed, which only a dirty worktree takes.
    pub open spec fn armed(self) -> RemovePlan {
        if self.is_dirty {
            RemovePlan { force_armed: true, ..self }
        } else {
            self
        }
    }

    /// Whether the plan may be carried out: a dirty worktree takes force.
    pub open spec fn confirmable(self) -> bool {
        self.is_dirty ==> self.force_armed
    }
}

/// The predicate of a worktree elsewhere than at a path.
pub open spec fn elsewhere(path: Seq<char>) -> spec_fn(WorktreeInfo) -> bool {
    |w: WorktreeInfo| !paths::same_path(w.path@, path)
}

impl App {
    /// The worktree that a removal is about: on the worktree tab the selected row, on the agent tab
    /// the first worktree at the selected agent's path. The main worktree is never removed.
    pub open spec fn removable(self) -> Option<WorktreeInfo> {
        let found = match self.active_tab {
            DashboardTab::Worktrees => self.row(),
            DashboardTab::Agents => match self.table_state.selected {
                Some(i) => if i < self.agents@.len() {
                    match navigation::index_at_path(
                        self.worktrees@,
                        self.agents@[i as int].path@,
                    ) {
                        Some(k) => Some(self.worktrees@[k as int]),
                        None => None,
                    }
                } else {
                    None
                },
                None => None,
            },
        };
        match found {
            Some(w) => if w.is_main {
                None
            } else {
                Some(w)
            },
            None => None,
        }
    }

    /// Row of the worktree that a removal is about.
    fn removal_row(&self) -> (r: Option<usize>)
        ensures
            match r {
                Some(k) => k < self.worktrees@.len() && self.removable() == Some(
                    self.worktrees@[k as int],
                ),
                None => self.removable() is None,
            },
    {
        let found: Option<usize> = match self.active_tab {
            DashboardTab::Worktrees => self.worktree_table_state.selected(),
            DashboardTab::Agents => match self.table_state.selected() {
                Some(i) => if i < self.agents.len() {
                    navigation::position_of_path(&self.worktrees, &self.agents[i].path)
                } else {
                    None
                },
                None => None,
            },
        };
        match found {
            Some(k) => if k < self.worktrees.len() && !self.worktrees[k].is_main {
                Some(k)
            } else {
                None
            },
            None => None,
        }
    }

    /// The path of the worktree that a removal is about, whose uncommitted changes are to be looked
    /// up before it is offered.
    pub fn removal_candidate(&self) -> (r: Option<String>)
        ensures
            r == (match self.removable() {
                Some(w) => Some(w.path),
                None => None,
            }),
    {
        match self.removal_row() {
            Some(k) => Some(self.worktrees[k].path.clone()),
            None => None,
        }
    }

    /// Shows the removal modal for the selected worktree, clean or not, from either tab. Skips the
    /// main worktree. `uncommitted` is whether git finds uncommitted changes there; where it cannot
    /// tell, the worktree counts as clean.
    pub fn remove_selected_worktree(&mut self, uncommitted: Option<bool>)
        ensures
            old(self).removable() is None ==> *final(self) == *old(self),
            old(self).removable() matches Some(w) ==> *final(self) == (App {
                pending_remove: Some(
                    RemovePlan {
                        handle: w.handle,
                        path: w.path,
                        is_dirty: uncommitted == Some(true),
                        is_unmerged: w.has_unmerged,
                        keep_branch: false,
                        force_armed: false,
                    },
                ),
                ..*old(self)
            }),
    {
        if let Some(k) = self.removal_row() {
            let handle = self.worktrees[k].handle.clone();
            let path = self.worktrees[k].path.clone();
            let is_unmerged = self.worktrees[k].has_unmerged;
            let is_dirty = uncommitted.unwrap_or(false);
            self.pending_remove = Some(
                RemovePlan {
                    handle,
                    path,
                    is_dirty,
                    is_unmerged,
                    keep_branch: false,
                    force_armed: false,
                },
            );
        }
    }

    /// Toggles whether the pending removal keeps the branch.
    pub fn toggle_remove_keep_branch(&mut self)
        ensures
            *final(self) == (App {
                pending_remove: match old(self).pending_remove {
                    Some(plan) => Some(plan.toggled()),
                    None => None,
                },
                ..*old(self)
            }),
    {
        if let Some(ref mut plan) = self.pending_remove {
            plan.keep_branch = !plan.keep_branch;
        }
    }

    /// Arms force for the removal of a dirty worktree.
    pub fn arm_remove_force(&mut self)
        ensures
            *final(self) == (App {
                pending_remove: match old(self).pending_remove {
                    Some(plan) => Some(plan.armed()),
                    None => None,
                },
                ..*old(self)
            }),
    {
        if let Some(ref mut plan) = self.pending_remove {
            if plan.is_dirty {
                plan.force_armed = true;
            }
        }
    }

    /// Confirms the pending removal. A dirty worktree without force armed stays as it is, with the
    /// modal open; else the modal closes and the worktree is to be removed, in its own repository
    /// and by the name of its directory. The removal is forced: it was confirmed.
    pub fn confirm_remove(&mut self) -> (r: Option<RemoveRequest>)
        ensures
            match old(self).pending_remove {
                Some(plan) => if plan.confirmable() {
                    &&& *final(self) == (App { pending_remove: None, ..*old(self) })
                    &&& r matches Some(request)
                    &&& request.handle@ == paths::file_name(plan.path@)
                    &&& request.path == plan.path
                    &&& request.force
                    &&& request.keep_branch == plan.keep_branch
                } else {
                    *final(self) == *old(self) && r is None
                },
                None => *final(self) == *old(self) && r is None,
            },
    {
        let plan = match self.pending_remove.take() {
            Some(plan) => plan,
            None => {
                return None;
            },
        };
        if plan.is_dirty && !plan.force_armed {
            self.pending_remove = Some(plan);
            return None;
        }
        let handle = paths::file_name_of(plan.path.as_str());
        Some(
            RemoveRequest { handle, path: plan.path, force: true, keep_branch: plan.keep_branch },
        )
    }

    /// The outcome of removing the worktree at `path`: once removed, it leaves the list, and the
    /// selection stays on its row, or moves to the last one.
    pub fn do_remove_worktree(&mut self, path: &String, removed: bool)
        ensures
            !removed ==> *final(self) == *old(self),
            removed ==> {
                let left = old(self).worktrees@.filter(elsewhere(path@));
                let index = old(self).worktree_table_state.selected.unwrap_or(0);
                let row = if index < left.len() {
                    index
                } else {
                    (left.len() - 1) as usize
                };
                &&& final(self).worktrees@ == left
                &&& *final(self) == (App {
                    worktrees: final(self).worktrees,
                    worktree_table_state: TableState {
                        selected: if left.len() == 0 {
                            None
                        } else {
                            Some(row)
                        },
                    },
                    selected_worktree_path: if left.len() == 0 {
                        None
                    } else {
                        Some(left[row as int].path)
                    },
                    ..*old(self)
                })
            },
    {
        if !removed {
            return;
        }
        let mut left: Vec<WorktreeInfo> = Vec::new();
        let mut i: usize = 0;
        proof {
            reveal(Seq::filter);
        }
        while i < self.worktrees.len()
            invariant
                i <= self.worktrees@.len(),
                *self == *old(self),
                left@ == self.worktrees@.take(i as int).filter(elsewhere(path@)),
            decreases self.worktrees@.len() - i,
        {
            proof {
                reveal(Seq::filter);
                assert(self.worktrees@.take(i + 1).drop_last() == self.worktrees@.take(i as int));
            }
            if !paths::is_same_path(self.worktrees[i].path.as_str(), path.as_str()) {
                left.push(self.worktrees[i].clone());
            }
            i = i + 1;
        }
        assert(self.worktrees@.take(i as int) == self.worktrees@);
        self.worktrees = left;
        if self.worktrees.is_empty() {
            self.worktree_table_state.select(None);
            self.selected_worktree_path = None;
        } else {
            let index: usize = self.worktree_table_state.selected().unwrap_or(0);
            let last: usize = self.worktrees.len() - 1;
            let row: usize = if index < last {
                index
            } else {
                last
            };
            self.worktree_table_state.select(Some(row));
            self.selected_worktree_path = Some(self.worktrees[row].path.clone());
        }
    }

    /// The window or session that closing is about: that of the selected worktree, unless it is the
    /// main one or has none.
    pub open spec fn closable(self) -> Option<CloseRequest> {
        match self.row() {
            Some(w) => if w.is_main || !w.has_mux_window {
                None
            } else {
                Some(
                    CloseRequest { prefix: self.window_prefix, handle: w.handle, mode: w.mode },
                )
            },
            None => None,
        }
    }

    /// Asks for the selected worktree's window or session to be closed, without removing the
    /// worktree, and makes a refetch due.
    pub fn close_selected_worktree_window(&mut self, now: i64) -> (r: Option<CloseRequest>)
        requires
            now >= i64::MIN + crate::app::REFETCH_BACKDATE,
        ensures
            r == old(self).closable(),
            r is None ==> *final(self) == *old(self),
            r is Some ==> *final(self) == (App {
                last_worktree_fetch: App::due(now),
                ..*old(self)
            }),
    {
        let selected: usize = match self.worktree_table_state.selected() {
            Some(i) => i,
            None => {
                return None;
            },
        };
        if selected >= self.worktrees.len() {
            return None;
        }
        if self.worktrees[selected].is_main || !self.worktrees[selected].has_mux_window {
            return None;
        }
        let handle = self.worktrees[selected].handle.clone();
        let mode = self.worktrees[selected].mode;
        let prefix = self.window_prefix.clone();
        self.trigger_worktree_refetch(now);
        Some(CloseRequest { prefix, handle, mode })
    }
}

/// No removal is ever offered for the main worktree.
pub proof fn law_main_worktree_is_not_removable(app: App)
    ensures
        app.removable() matches Some(w) ==> !w.is_main,
{
}

/// A removal can be confirmed as soon as force is armed, and a clean one at any time; a dirty one
/// without force cannot, whatever becomes of the branch.
pub proof fn law_dirty_removal_takes_force(plan: RemovePlan)
    ensures
        plan.armed().confirmable(),
        !plan.is_dirty ==> plan.confirmable() && plan.armed() == plan,
        plan.is_dirty && !plan.force_armed ==> !plan.confirmable()
            && !plan.toggled().confirmable(),
{
}

/// Toggling twice whether the branch is kept changes nothing.
pub proof fn law_toggle_keep_branch_undoes(plan: RemovePlan)
    ensures
        plan.toggled().toggled() == plan,
        plan.toggled().keep_branch != plan.keep_branch,
{
}

/// Once removed, a worktree is gone from the list, and every other one is still there.
pub proof fn law_removal_takes_one_path(
    worktrees: Seq<WorktreeInfo>,
    path: Seq<char>,
    w: WorktreeInfo,
)
    ensures
        worktrees.filter(elsewhere(path)).contains(w) <==> worktrees.contains(w)
            && !paths::same_path(w.path@, path),
{
    let left = worktrees.filter(elsewhere(path));
    if left.contains(w) {
        let k = choose|k: int| 0 <= k < left.len() && left[k] == w;
        worktrees.lemma_filter_pred(elsewhere(path), k);
        worktrees.lemma_filter_contains_rev(elsewhere(path), w);
    }
    if worktrees.contains(w) && !paths::same_path(w.path@, path) {
        let i = choose|i: int| 0 <= i < worktrees.len() && worktrees[i] == w;
        worktrees.lemma_filter_contains(elsewhere(path), i);
    }
}

/// Arming force and toggling whether the branch is kept each change one thing of a plan, and in
/// whichever order they come: arming a dirty plan arms it and leaves all else, and toggling turns the
/// choice of the branch round and leaves all else.
pub proof fn law_arming_and_toggling_commute(plan: RemovePlan)
    ensures
        plan.armed().handle == plan.handle,
        plan.armed().path == plan.path,
        plan.armed().is_dirty == plan.is_dirty,
        plan.armed().is_unmerged == plan.is_unmerged,
        plan.armed().keep_branch == plan.keep_branch,
        plan.armed().force_armed == (plan.is_dirty || plan.force_armed),
        plan.toggled().handle == plan.handle,
        plan.toggled().path == plan.path,
        plan.toggled().is_dirty == plan.is_dirty,
        plan.toggled().is_unmerged == plan.is_unmerged,
        plan.toggled().keep_branch == !plan.keep_branch,
        plan.toggled().force_armed == plan.force_armed,
        plan.armed().toggled() == plan.toggled().armed(),
        plan.armed().armed() == plan.armed(),
        plan.confirmable() <==> !plan.is_dirty || plan.force_armed,
{
}

/// A key of the removal modal.
pub enum RemoveKey {
    Toggle,
    Arm,
}

/// The plan after a row of keys.
pub open spec fn after_keys(plan: RemovePlan, keys: Seq<RemoveKey>) -> RemovePlan
    decreases keys.len(),
{
    if keys.len() == 0 {
        plan
    } else {
        let before = after_keys(plan, keys.drop_last());
        match keys.last() {
            RemoveKey::Toggle => before.toggled(),
            RemoveKey::Arm => before.armed(),
        }
    }
}

/// How many of the keys toggle.
pub open spec fn toggles(keys: Seq<RemoveKey>) -> nat
    decreases keys.len(),
{
    if keys.len() == 0 {
        0
    } else {
        toggles(keys.drop_last()) + if keys.last() is Toggle {
            1nat
        } else {
            0nat
        }
    }
}

/// Whichever keys are pressed before a removal is confirmed, it is about the same worktree; the choice
/// of the branch is turned round exactly where it was toggled an odd number of times; and it can be
/// confirmed exactly where the worktree is clean or force was armed.
pub proof fn law_removal_goes_by_its_keys(plan: RemovePlan, keys: Seq<RemoveKey>)
    ensures
        ({
            let after = after_keys(plan, keys);
            &&& after.handle == plan.handle
            &&& after.path == plan.path
            &&& after.is_dirty == plan.is_dirty
            &&& after.is_unmerged == plan.is_unmerged
            &&& after.keep_branch == (plan.keep_branch != (toggles(keys) % 2 == 1))
            &&& after.confirmable() <==> !plan.is_dirty || plan.force_armed || keys.contains(
                RemoveKey::Arm,
            )
        }),
    decreases keys.len(),
{
    if keys.len() > 0 {
        let front = keys.drop_last();
        law_removal_goes_by_its_keys(plan, front);
        assert(keys =~= front.push(keys.last()));
        assert(keys.contains(RemoveKey::Arm) <==> front.contains(RemoveKey::Arm) || keys.last()
            == RemoveKey::Arm) by {
            if front.contains(RemoveKey::Arm) {
                let i = choose|i: int| 0 <= i < front.len() && front[i] == RemoveKey::Arm;
                assert(keys[i] == RemoveKey::Arm);
            }
            if keys.contains(RemoveKey::Arm) {
                let i = choose|i: int| 0 <= i < keys.len() && keys[i] == RemoveKey::Arm;
                if i < front.len() {
                    assert(front[i] == RemoveKey::Arm);
                }
            }
            assert(keys[keys.len() - 1] == keys.last());
        }
    }
}

/// On the worktree tab a removal is about the row at the cursor, and about none where that is the main
/// worktree or there is none.
pub proof fn law_removal_is_about_the_cursor(app: App)
    requires
        app.active_tab == DashboardTab::Worktrees,
    ensures
        match app.worktree_table_state.selected {
            Some(i) if i < app.worktrees@.len() && !app.worktrees@[i as int].is_main => {
                app.removable() == Some(app.worktrees@[i as int])
            },
            _ => app.removable() is None,
        },
{
}

/// On the agent tab a removal is about the first row at the path of the agent at the cursor, and about
/// none where that is the main worktree or there is none.
pub proof fn law_removal_is_about_the_agent(app: App, k: int)
    requires
        app.active_tab == DashboardTab::Agents,
    ensures
        match app.table_state.selected {
            Some(a) if a < app.agents@.len() => {
                let rows = app.worktrees@;
                let path = app.agents@[a as int].path@;
                &&& 0 <= k < rows.len() && paths::same_path(rows[k].path@, path) && (forall|j: int|
                    0 <= j < k ==> !paths::same_path((#[trigger] rows[j]).path@, path)) ==> (
                if rows[k].is_main {
                    app.removable() is None
                } else {
                    app.removable() == Some(rows[k])
                })
                &&& (forall|j: int|
                    0 <= j < rows.len() ==> !paths::same_path((#[trigger] rows[j]).path@, path))
                    ==> app.removable() is None
            },
            _ => app.removable() is None,
        },
{
    if let Some(a) = app.table_state.selected {
        if a < app.agents@.len() {
            let rows = app.worktrees@;
            let path = app.agents@[a as int].path@;
            assert(rows.len() == app.worktrees.len());
            navigation::law_row_at_a_path(app.worktrees, path, k);
        }
    }
}

/// A window is closed exactly where the row at the cursor has one and is not the main worktree; it is
/// that row's window, under the configured prefix and in that row's mode.
pub proof fn law_closing_is_about_the_cursor(app: App)
    ensures
        match app.worktree_table_state.selected {
            Some(i) if i < app.worktrees@.len() => {
                let w = app.worktrees@[i as int];
                &&& app.closable() is Some <==> !w.is_main && w.has_mux_window
                &&& app.closable() matches Some(request) ==> request.handle == w.handle
                    && request.mode == w.mode && request.prefix == app.window_prefix
            },
            _ => app.closable() is None,
        },
{
}

/// A worktree is left by a removal exactly where it is at another path.
pub proof fn law_other_paths_are_left(path: Seq<char>, w: WorktreeInfo)
    ensures
        elsewhere(path)(w) <==> paths::components(w.path@) != paths::components(path),
{
}

} // verus!
