//! Adding a worktree from the dashboard.

use vstd::prelude::*;
use vstd::string::StringExecFns;
use crate::add_worktree;
use crate::add_worktree::{
    AddWorktreeJob, AddWorktreeMode, AddWorktreeState, JobView, PrEntry, PrListState,
};
use crate::app::App;
use crate::collections::TextSet;
use crate::picker;
use crate::text;
use crate::types::WorktreeInfo;

verus! {

/// A job that is to run in the background, and the repository it works on.
#[derive(Debug)]
pub struct AddWorktreeRequest {
    pub job: AddWorktreeJob,
    pub repo_path: String,
}

/// A request for the open pull requests of a repository; the reply carries its number.
#[derive(Debug)]
pub struct PrListRequest {
    pub request_id: u64,
    pub repo_path: String,
}

/// Whether one of the worktrees is on a branch.
pub open spec fn on_branch(worktrees: Seq<WorktreeInfo>, branch: Seq<char>) -> bool {
    exists|i: int| 0 <= i < worktrees.len() && (#[trigger] worktrees[i]).branch@ == branch
}

/// What the status line says while a job runs.
pub open spec fn job_message(job: JobView) -> Seq<char> {
    match job {
        JobView::CreateBranch { name, .. } => "Creating worktree '"@ + name + "'..."@,
        JobView::CheckoutPr { pr_number } => "Checking out PR #"@ + text::decimal_text(
            pr_number as nat,
        ) + "..."@,
    }
}

/// The first of these that there is: the configured base, the current branch unless it is blank,
/// the default branch; and else `main`.
pub open spec fn default_base(
    configured: Option<String>,
    current: Option<String>,
    default_branch: Option<String>,
) -> Seq<char> {
    if let Some(base) = configured {
        base@
    } else if current is Some && text::trim_both(current->0@).len() > 0 {
        text::trim_both(current->0@)
    } else if let Some(base) = default_branch {
        base@
    } else {
        "main"@
    }
}

/// The branch that a new one starts from, unless another is chosen: the configured base branch, the
/// branch that is checked out, or the default branch of the repository.
pub fn default_add_worktree_base(
    configured: Option<String>,
    current: Option<String>,
    default_branch: Option<String>,
) -> (r: String)
    ensures
        r@ == default_base(configured, current, default_branch),
{
    if let Some(base) = configured {
        return base;
    }
    if let Some(branch) = current {
        let branch = text::trim(branch.as_str());
        if !branch.as_str().is_empty() {
            return branch;
        }
    }
    match default_branch {
        Some(base) => base,
        None => "main".to_owned(),
    }
}

/// The branches of the worktrees.
fn occupied(worktrees: &Vec<WorktreeInfo>) -> (r: TextSet)
    ensures
        forall|b: Seq<char>| #[trigger] r@.contains(b) <==> on_branch(worktrees@, b),
{
    let mut r = TextSet::new();
    let mut i: usize = 0;
    while i < worktrees.len()
        invariant
            i <= worktrees@.len(),
            forall|b: Seq<char>| #[trigger]
                r@.contains(b) <==> on_branch(worktrees@.take(i as int), b),
        decreases worktrees@.len() - i,
    {
        let ghost before = r@;
        r.insert(worktrees[i].branch.clone());
        proof {
            let s = worktrees@.take(i as int);
            let t = worktrees@.take(i + 1);
            assert(t == s.push(worktrees@[i as int]));
            assert forall|b: Seq<char>| #[trigger] r@.contains(b) <==> on_branch(t, b) by {
                assert(r@.contains(b) <==> before.contains(b) || b
                    == worktrees@[i as int].branch@);
                if on_branch(s, b) {
                    let j = choose|j: int| 0 <= j < s.len() && (#[trigger] s[j]).branch@ == b;
                    assert(t[j].branch@ == b);
                }
                if b == worktrees@[i as int].branch@ {
                    assert(t[i as int].branch@ == b);
                }
                if on_branch(t, b) {
                    let j = choose|j: int| 0 <= j < t.len() && (#[trigger] t[j]).branch@ == b;
                    if j < i {
                        assert(s[j].branch@ == b);
                    }
                }
            }
        }
        i = i + 1;
    }
    assert(worktrees@.take(i as int) == worktrees@);
    r
}

/// Whether `after` is `before` with another name typed: the cursor is back at the start, and no
/// completion is under way.
pub open spec fn retyped(before: AddWorktreeState, after: AddWorktreeState, typed: Seq<char>) -> bool {
    &&& after == (AddWorktreeState { filter: after.filter, tab_prefix: None, cursor: 0, ..before })
    &&& after.filter@ == typed
}

/// Whether `after` is `before` with another base typed, and no completion of it under way.
pub open spec fn base_retyped(
    before: AddWorktreeState,
    after: AddWorktreeState,
    typed: Seq<char>,
) -> bool {
    &&& after == (AddWorktreeState {
        base_filter: after.base_filter,
        base_tab_prefix: None,
        ..before
    })
    &&& after.base_filter@ == typed
}

/// Whether `after` is `before` with the editing of the base begun or ended. In the list of pull
/// requests there is none. It begins with the base as it is; when it ends, what was typed becomes
/// the base, unless it is blank.
pub open spec fn base_toggled(before: AddWorktreeState, after: AddWorktreeState) -> bool {
    if before.mode == AddWorktreeMode::Pr {
        after == before
    } else if before.editing_base {
        let typed = text::trim_both(before.base_filter@);
        &&& after == (AddWorktreeState {
            base_branch: after.base_branch,
            editing_base: false,
            base_filter: after.base_filter,
            base_tab_prefix: None,
            ..before
        })
        &&& after.base_filter@.len() == 0
        &&& after.base_branch@ == (if typed.len() > 0 {
            typed
        } else {
            before.base_branch@
        })
    } else {
        after == (AddWorktreeState {
            editing_base: true,
            base_filter: before.base_branch,
            base_tab_prefix: None,
            ..before
        })
    }
}

impl AddWorktreeState {
    /// The modal after a step down.
    pub open spec fn down(self) -> AddWorktreeState {
        AddWorktreeState {
            cursor: if self.cursor < self.last_row() {
                (self.cursor + 1) as usize
            } else {
                self.cursor
            },
            ..self
        }
    }

    /// The branch that completes what was typed.
    pub open spec fn completed_branch(self) -> Option<usize> {
        add_worktree::completion(
            self.branches@,
            add_worktree::reading(self.tab_prefix),
            self.filter@,
            Some(self.occupied_branches@),
        )
    }

    /// The modal after completing the name: the branch stands in the field, and the cursor on its
    /// row. Where nothing matches, only what was typed is saved.
    pub open spec fn completed(self) -> AddWorktreeState {
        let saved = AddWorktreeState {
            tab_prefix: Some(
                match self.tab_prefix {
                    Some(prefix) => prefix,
                    None => self.filter,
                },
            ),
            ..self
        };
        match self.completed_branch() {
            Some(i) => AddWorktreeState {
                filter: self.branches@[i as int],
                cursor: match add_worktree::picker_row(self.free(), i) {
                    Some(row) => row,
                    None => self.cursor,
                },
                ..saved
            },
            None => saved,
        }
    }

    /// The modal after completing the base.
    pub open spec fn base_completed(self) -> AddWorktreeState {
        let saved = AddWorktreeState {
            base_tab_prefix: Some(
                match self.base_tab_prefix {
                    Some(prefix) => prefix,
                    None => self.base_filter,
                },
            ),
            ..self
        };
        match add_worktree::completion(
            self.branches@,
            add_worktree::reading(self.base_tab_prefix),
            self.base_filter@,
            None,
        ) {
            Some(i) => AddWorktreeState { base_filter: self.branches@[i as int], ..saved },
            None => saved,
        }
    }

    /// Whether the next switch to the pull requests asks for their list.
    pub open spec fn lacks_prs(self) -> bool {
        self.mode == AddWorktreeMode::Branch && self.pr_list is None
    }

    /// The modal after a switch between branches and pull requests.
    pub open spec fn mode_toggled(self) -> AddWorktreeState {
        match self.mode {
            AddWorktreeMode::Branch => AddWorktreeState {
                mode: AddWorktreeMode::Pr,
                cursor: 0,
                editing_base: false,
                pr_list: if self.pr_list is None {
                    Some(PrListState::Loading)
                } else {
                    self.pr_list
                },
                pr_request_counter: if self.pr_list is None {
                    (self.pr_request_counter + 1) as u64
                } else {
                    self.pr_request_counter
                },
                ..self
            },
            AddWorktreeMode::Pr => AddWorktreeState {
                mode: AddWorktreeMode::Branch,
                cursor: 0,
                ..self
            },
        }
    }

    /// The job that the selection stands for. On the first row of the branches that is the pull
    /// request whose number was typed, or a new branch of the typed name, from the base; below it,
    /// the existing branch listed there; among the pull requests, the one under the cursor.
    pub open spec fn choice(self) -> Option<JobView> {
        match self.mode {
            AddWorktreeMode::Branch => if self.cursor == 0 {
                let name = text::trim_both(self.filter@);
                match add_worktree::pr_number_in(self.filter@) {
                    Some(pr_number) => Some(JobView::CheckoutPr { pr_number }),
                    None => if name.len() == 0 {
                        None
                    } else {
                        Some(
                            JobView::CreateBranch {
                                name,
                                base_branch: Some(self.base_branch@),
                            },
                        )
                    },
                }
            } else if self.cursor - 1 < self.visible().len() {
                Some(
                    JobView::CreateBranch {
                        name: self.branches@[self.visible()[self.cursor - 1] as int]@,
                        base_branch: None,
                    },
                )
            } else {
                None
            },
            AddWorktreeMode::Pr => match self.pr_list {
                Some(PrListState::Loaded { prs }) => if self.cursor < self.visible_prs().len() {
                    Some(
                        JobView::CheckoutPr {
                            pr_number: prs@[self.visible_prs()[self.cursor as int] as int].number,
                        },
                    )
                } else {
                    None
                },
                _ => None,
            },
        }
    }
}

impl App {
    /// Opens the add-worktree modal on the repository that `worktree_repo_path` gives. `listed`
    /// holds its local branches, where they could be listed, and `base` the branch that a new one
    /// starts from.
    pub fn show_add_worktree(&mut self, listed: Option<Vec<String>>, base: String, now: i64)
        ensures
            match old(self).repo_path() {
                Some(repo_path) => match listed {
                    Some(branches) => {
                        &&& *final(self) == (App {
                            pending_add_worktree: final(self).pending_add_worktree,
                            ..*old(self)
                        })
                        &&& final(self).pending_add_worktree matches Some(state)
                        &&& state.branches == branches
                        &&& forall|b: Seq<char>| #[trigger]
                            state.occupied_branches@.contains(b) <==> on_branch(
                                old(self).worktrees@,
                                b,
                            )
                        &&& state.wf()
                        &&& state.cursor == 0
                        &&& state.filter@.len() == 0
                        &&& state.tab_prefix is None
                        &&& state.base_branch == base
                        &&& !state.editing_base
                        &&& state.base_filter@.len() == 0
                        &&& state.base_tab_prefix is None
                        &&& state.repo_path == repo_path
                        &&& state.mode == AddWorktreeMode::Branch
                        &&& state.pr_list is None
                        &&& state.pr_request_counter == 0
                    },
                    None => {
                        &&& *final(self) == (App {
                            status_message: final(self).status_message,
                            ..*old(self)
                        })
                        &&& final(self).reports("Failed to list branches"@, now)
                    },
                },
                None => {
                    &&& *final(self) == (App {
                        status_message: final(self).status_message,
                        ..*old(self)
                    })
                    &&& final(self).reports("No project context available"@, now)
                },
            },
    {
        let repo_path = match self.worktree_repo_path() {
            Some(path) => path,
            None => {
                self.status_message = Some(("No project context available".to_owned(), now));
                return ;
            },
        };
        let branches = match self.list_branches_for_status(listed, now) {
            Some(branches) => branches,
            None => {
                return ;
            },
        };
        let occupied_branches = occupied(&self.worktrees);
        self.pending_add_worktree = Some(
            AddWorktreeState {
                branches,
                occupied_branches,
                cursor: 0,
                filter: String::new(),
                tab_prefix: None,
                base_branch: base,
                editing_base: false,
                base_filter: String::new(),
                base_tab_prefix: None,
                repo_path,
                mode: AddWorktreeMode::Branch,
                pr_list: None,
                pr_request_counter: 0,
            },
        );
    }

    /// Whether nothing but the add-worktree modal changed, and that from `before` to `after`, which
    /// `change` relates; without a modal nothing changed.
    pub open spec fn modal_changed(
        before: App,
        after: App,
        change: spec_fn(AddWorktreeState, AddWorktreeState) -> bool,
    ) -> bool {
        &&& after == (App { pending_add_worktree: after.pending_add_worktree, ..before })
        &&& match before.pending_add_worktree {
            Some(state) => after.pending_add_worktree matches Some(new) && change(state, new),
            None => after.pending_add_worktree is None,
        }
    }

    /// Appends a character to the name.
    pub fn add_worktree_append(&mut self, c: char)
        ensures
            App::modal_changed(
                *old(self),
                *final(self),
                |before: AddWorktreeState, after: AddWorktreeState|
                    retyped(before, after, before.filter@.push(c)),
            ),
    {
        if let Some(ref mut state) = self.pending_add_worktree {
            state.filter.push(c);
            state.tab_prefix = None;
            state.cursor = 0;
        }
    }

    /// Deletes the last character of the name.
    pub fn add_worktree_delete(&mut self)
        ensures
            App::modal_changed(
                *old(self),
                *final(self),
                |before: AddWorktreeState, after: AddWorktreeState|
                    retyped(before, after, text::without_last(before.filter@)),
            ),
    {
        if let Some(ref mut state) = self.pending_add_worktree {
            state.filter.pop();
            state.tab_prefix = None;
            state.cursor = 0;
        }
    }

    /// Deletes the last word of the name.
    pub fn add_worktree_delete_word(&mut self)
        ensures
            App::modal_changed(
                *old(self),
                *final(self),
                |before: AddWorktreeState, after: AddWorktreeState|
                    retyped(before, after, text::without_last_word(before.filter@)),
            ),
    {
        if let Some(ref mut state) = self.pending_add_worktree {
            text::delete_word_backward(&mut state.filter);
            state.tab_prefix = None;
            state.cursor = 0;
        }
    }

    /// Clears the name.
    pub fn add_worktree_clear(&mut self)
        ensures
            App::modal_changed(
                *old(self),
                *final(self),
                |before: AddWorktreeState, after: AddWorktreeState|
                    retyped(before, after, Seq::empty()),
            ),
    {
        if let Some(ref mut state) = self.pending_add_worktree {
            state.filter = String::new();
            state.tab_prefix = None;
            state.cursor = 0;
        }
    }

    /// Moves the cursor down, as far as there are rows to choose.
    pub fn add_worktree_down(&mut self)
        ensures
            *final(self) == (App {
                pending_add_worktree: match old(self).pending_add_worktree {
                    Some(state) => Some(state.down()),
                    None => None,
                },
                ..*old(self)
            }),
    {
        if let Some(ref mut state) = self.pending_add_worktree {
            let last: usize = match state.mode {
                AddWorktreeMode::Branch => {
                    let count: usize = state.selectable_count();
                    if !text::is_blank(state.filter.as_str()) {
                        count
                    } else if count > 0 {
                        count - 1
                    } else {
                        0
                    }
                },
                AddWorktreeMode::Pr => {
                    let count: usize = state.filtered_prs().len();
                    if count > 0 {
                        count - 1
                    } else {
                        0
                    }
                },
            };
            if state.cursor < last {
                state.cursor = state.cursor + 1;
            }
        }
    }

    /// Moves the cursor up.
    pub fn add_worktree_up(&mut self)
        ensures
            *final(self) == (App {
                pending_add_worktree: match old(self).pending_add_worktree {
                    Some(state) => Some(
                        AddWorktreeState { cursor: picker::stepped_up(state.cursor), ..state },
                    ),
                    None => None,
                },
                ..*old(self)
            }),
    {
        if let Some(ref mut state) = self.pending_add_worktree {
            state.cursor = picker::step_up(state.cursor);
        }
    }

    /// Completes the name, or cycles to the next branch that matches what was typed. In the list of
    /// pull requests nothing happens.
    pub fn add_worktree_tab_complete(&mut self)
        ensures
            *final(self) == (App {
                pending_add_worktree: match old(self).pending_add_worktree {
                    Some(state) => Some(
                        if state.mode == AddWorktreeMode::Pr {
                            state
                        } else {
                            state.completed()
                        },
                    ),
                    None => None,
                },
                ..*old(self)
            }),
    {
        if let Some(ref mut state) = self.pending_add_worktree {
            if state.mode == AddWorktreeMode::Pr {
                return ;
            }
            let completed = add_worktree::cycle_branch_completion(
                &state.branches,
                &mut state.tab_prefix,
                &state.filter,
                Some(&state.occupied_branches),
            );
            if let Some(completion) = completed {
                state.filter = completion.branch;
                if let Some(cursor) = completion.picker_cursor {
                    state.cursor = cursor;
                }
            }
        }
    }

    /// Switches between branches and pull requests. The first switch to the pull requests asks for
    /// their list.
    pub fn add_worktree_toggle_pr_mode(&mut self) -> (r: Option<PrListRequest>)
        requires
            old(self).pending_add_worktree matches Some(state) ==> (state.lacks_prs()
                ==> state.pr_request_counter < u64::MAX),
        ensures
            *final(self) == (App {
                pending_add_worktree: match old(self).pending_add_worktree {
                    Some(state) => Some(state.mode_toggled()),
                    None => None,
                },
                ..*old(self)
            }),
            r == (match old(self).pending_add_worktree {
                Some(state) => if state.lacks_prs() {
                    Some(
                        PrListRequest {
                            request_id: state.mode_toggled().pr_request_counter,
                            repo_path: state.repo_path,
                        },
                    )
                } else {
                    None
                },
                None => None,
            }),
    {
        if let Some(ref mut state) = self.pending_add_worktree {
            match state.mode {
                AddWorktreeMode::Branch => {
                    state.mode = AddWorktreeMode::Pr;
                    state.cursor = 0;
                    state.editing_base = false;
                    if state.pr_list.is_none() {
                        state.pr_request_counter = state.pr_request_counter + 1;
                        state.pr_list = Some(PrListState::Loading);
                        return Some(
                            PrListRequest {
                                request_id: state.pr_request_counter,
                                repo_path: state.repo_path.clone(),
                            },
                        );
                    }
                },
                AddWorktreeMode::Pr => {
                    state.mode = AddWorktreeMode::Branch;
                    state.cursor = 0;
                },
            }
        }
        None
    }

    /// Begins or ends the editing of the base.
    pub fn add_worktree_toggle_base(&mut self)
        ensures
            App::modal_changed(
                *old(self),
                *final(self),
                |before: AddWorktreeState, after: AddWorktreeState| base_toggled(before, after),
            ),
    {
        if let Some(ref mut state) = self.pending_add_worktree {
            if state.mode == AddWorktreeMode::Pr {
                return ;
            }
            if state.editing_base {
                let typed = text::trim(state.base_filter.as_str());
                if !typed.as_str().is_empty() {
                    state.base_branch = typed;
                }
                state.editing_base = false;
                state.base_filter = String::new();
                state.base_tab_prefix = None;
            } else {
                state.editing_base = true;
                state.base_filter = state.base_branch.clone();
                state.base_tab_prefix = None;
            }
        }
    }

    /// Completes the base, or cycles to the next branch that matches what was typed.
    pub fn add_worktree_base_tab_complete(&mut self)
        ensures
            *final(self) == (App {
                pending_add_worktree: match old(self).pending_add_worktree {
                    Some(state) => Some(state.base_completed()),
                    None => None,
                },
                ..*old(self)
            }),
    {
        if let Some(ref mut state) = self.pending_add_worktree {
            let completed = add_worktree::cycle_branch_completion(
                &state.branches,
                &mut state.base_tab_prefix,
                &state.base_filter,
                None,
            );
            if let Some(completion) = completed {
                state.base_filter = completion.branch;
            }
        }
    }

    /// Appends a character to the base.
    pub fn add_worktree_base_append(&mut self, c: char)
        ensures
            App::modal_changed(
                *old(self),
                *final(self),
                |before: AddWorktreeState, after: AddWorktreeState|
                    base_retyped(before, after, before.base_filter@.push(c)),
            ),
    {
        if let Some(ref mut state) = self.pending_add_worktree {
            state.base_filter.push(c);
            state.base_tab_prefix = None;
        }
    }

    /// Deletes the last character of the base.
    pub fn add_worktree_base_delete(&mut self)
        ensures
            App::modal_changed(
                *old(self),
                *final(self),
                |before: AddWorktreeState, after: AddWorktreeState|
                    base_retyped(before, after, text::without_last(before.base_filter@)),
            ),
    {
        if let Some(ref mut state) = self.pending_add_worktree {
            state.base_filter.pop();
            state.base_tab_prefix = None;
        }
    }

    /// Deletes the last word of the base.
    pub fn add_worktree_base_delete_word(&mut self)
        ensures
            App::modal_changed(
                *old(self),
                *final(self),
                |before: AddWorktreeState, after: AddWorktreeState|
                    base_retyped(before, after, text::without_last_word(before.base_filter@)),
            ),
    {
        if let Some(ref mut state) = self.pending_add_worktree {
            text::delete_word_backward(&mut state.base_filter);
            state.base_tab_prefix = None;
        }
    }

    /// Clears the base.
    pub fn add_worktree_base_clear(&mut self)
        ensures
            App::modal_changed(
                *old(self),
                *final(self),
                |before: AddWorktreeState, after: AddWorktreeState|
                    base_retyped(before, after, Seq::empty()),
            ),
    {
        if let Some(ref mut state) = self.pending_add_worktree {
            state.base_filter = String::new();
            state.base_tab_prefix = None;
        }
    }

    /// Sets a job going that checks out a pull request.
    fn do_checkout_pr(&mut self, pr_number: u32, repo_path: String, now: i64) -> (r:
        AddWorktreeRequest)
        ensures
            r.job@ == (JobView::CheckoutPr { pr_number }),
            r.repo_path == repo_path,
            *final(self) == (App { status_message: final(self).status_message, ..*old(self) }),
            final(self).reports(job_message(r.job@), now),
    {
        let mut message: String = "Checking out PR #".to_owned();
        message.append(text::decimal(pr_number as u64).as_str());
        message.append("...");
        self.status_message = Some((message, now));
        AddWorktreeRequest { job: AddWorktreeJob::CheckoutPr { pr_number }, repo_path }
    }

    /// Sets a job going that creates a worktree.
    fn do_create_worktree(
        &mut self,
        name: String,
        base_branch: Option<String>,
        repo_path: String,
        now: i64,
    ) -> (r: AddWorktreeRequest)
        ensures
            r.job == (AddWorktreeJob::CreateBranch { name, base_branch }),
            r.repo_path == repo_path,
            *final(self) == (App { status_message: final(self).status_message, ..*old(self) }),
            final(self).reports(job_message(r.job@), now),
    {
        let mut message: String = "Creating worktree '".to_owned();
        message.append(name.as_str());
        message.append("'...");
        self.status_message = Some((message, now));
        AddWorktreeRequest { job: AddWorktreeJob::CreateBranch { name, base_branch }, repo_path }
    }

    /// Confirms the modal. While the base is edited, that ends, and nothing else happens; else the
    /// modal closes and the job that the selection stands for starts. Where it stands for none, the
    /// modal stays.
    pub fn add_worktree_confirm_selection(&mut self, now: i64) -> (r: Option<AddWorktreeRequest>)
        ensures
            match old(self).pending_add_worktree {
                Some(state) => if state.editing_base {
                    &&& r is None
                    &&& App::modal_changed(
                        *old(self),
                        *final(self),
                        |before: AddWorktreeState, after: AddWorktreeState|
                            base_toggled(before, after),
                    )
                } else {
                    match state.choice() {
                        Some(job) => {
                            &&& r matches Some(request)
                            &&& request.job@ == job
                            &&& request.repo_path == state.repo_path
                            &&& *final(self) == (App {
                                pending_add_worktree: None,
                                status_message: final(self).status_message,
                                ..*old(self)
                            })
                            &&& final(self).reports(job_message(job), now)
                        },
                        None => r is None && *final(self) == *old(self),
                    }
                },
                None => r is None && *final(self) == *old(self),
            },
    {
        let mut create: Option<(String, Option<String>)> = None;
        let mut checkout: Option<u32> = None;
        let repo_path = match &self.pending_add_worktree {
            None => {
                return None;
            },
            Some(state) => {
                if state.editing_base {
                    self.add_worktree_toggle_base();
                    return None;
                }
                match state.mode {
                    AddWorktreeMode::Branch => {
                        if state.cursor == 0 {
                            checkout = state.detected_pr_number();
                            if checkout.is_none() {
                                let name = text::trim(state.filter.as_str());
                                if name.as_str().is_empty() {
                                    return None;
                                }
                                create = Some((name, Some(state.base_branch.clone())));
                            }
                        } else {
                            let shown = state.filtered();
                            let row: usize = state.cursor - 1;
                            if row >= shown.len() {
                                return None;
                            }
                            create = Some((state.branches[shown[row]].clone(), None));
                        }
                    },
                    AddWorktreeMode::Pr => {
                        let shown = state.filtered_prs();
                        if state.cursor >= shown.len() {
                            return None;
                        }
                        match &state.pr_list {
                            Some(PrListState::Loaded { prs }) => {
                                checkout = Some(prs[shown[state.cursor]].number);
                            },
                            _ => {
                                return None;
                            },
                        }
                    },
                }
                state.repo_path.clone()
            },
        };
        self.pending_add_worktree = None;
        if let Some(pr_number) = checkout {
            return Some(self.do_checkout_pr(pr_number, repo_path, now));
        }
        match create {
            Some((name, base)) => Some(self.do_create_worktree(name, base, repo_path, now)),
            None => None,
        }
    }

    /// Takes the outcome of a background job: the branch whose worktree was created, and then a
    /// refetch is due; or why it failed.
    pub fn handle_add_worktree_result(&mut self, result: Result<String, String>, now: i64)
        requires
            now >= i64::MIN + crate::app::REFETCH_BACKDATE,
        ensures
            match result {
                Ok(branch) => {
                    &&& *final(self) == (App {
                        status_message: final(self).status_message,
                        last_worktree_fetch: App::due(now),
                        ..*old(self)
                    })
                    &&& final(self).reports("Created worktree '"@ + branch@ + "'"@, now)
                },
                Err(e) => {
                    &&& *final(self) == (App {
                        status_message: final(self).status_message,
                        ..*old(self)
                    })
                    &&& final(self).reports("Failed to create worktree: "@ + e@, now)
                },
            },
    {
        match result {
            Ok(branch) => {
                let mut message: String = "Created worktree '".to_owned();
                message.append(branch.as_str());
                message.append("'");
                self.status_message = Some((message, now));
                self.trigger_worktree_refetch(now);
            },
            Err(e) => {
                self.status_message = Some(
                    (text::concat("Failed to create worktree: ", e.as_str()), now),
                );
            },
        }
    }
}

/// A completed name is the branch under the cursor: confirming it there creates a worktree for that
/// very branch.
pub proof fn law_completion_is_under_the_cursor(state: AddWorktreeState)
    requires
        state.mode == AddWorktreeMode::Branch,
        state.completed_branch() is Some,
    ensures
        state.completed().choice() == Some(
            JobView::CreateBranch { name: state.completed().filter@, base_branch: None },
        ),
        !state.occupied_branches@.contains(state.completed().filter@),
        0 < state.completed().cursor <= state.completed().free().len(),
        state.completed().visible() == state.visible(),
{
    let i = state.completed_branch()->0;
    let occupied = state.occupied_branches@;
    let done = state.completed();
    assert(state.branches@.len() == state.branches.len());
    add_worktree::lemma_completion_is_a_match(
        state.branches@,
        add_worktree::reading(state.tab_prefix),
        state.filter@,
        Some(occupied),
    );
    add_worktree::lemma_completion_is_listed(
        state.branches@,
        state.search(),
        occupied,
        i as int,
    );
    add_worktree::lemma_picker_row(state.branches@, state.search(), occupied, i);
    assert(done.search() == state.search());
    assert(done.visible()[done.cursor - 1] == i);
}

/// The cursor of the add-worktree modal stays among the rows to choose, whichever key is pressed, as
/// long as no branch has a blank name.
pub proof fn law_cursor_stays_on_a_row(
    state: AddWorktreeState,
    after: AddWorktreeState,
    typed: Seq<char>,
)
    requires
        state.wf(),
        forall|i: int|
            0 <= i < state.branches@.len() ==> text::trim_both((#[trigger] state.branches@[i])@).len()
                > 0,
    ensures
        state.down().wf(),
        (AddWorktreeState { cursor: picker::stepped_up(state.cursor), ..state }).wf(),
        retyped(state, after, typed) ==> after.wf(),
        base_retyped(state, after, typed) ==> after.wf(),
        base_toggled(state, after) ==> after.wf(),
        state.mode == AddWorktreeMode::Branch ==> state.completed().wf(),
        state.base_completed().wf(),
        state.mode_toggled().wf(),
{
    assert(state.branches@.len() == state.branches.len());
    if state.mode == AddWorktreeMode::Branch && state.completed_branch() is Some {
        law_completion_is_under_the_cursor(state);
        add_worktree::lemma_completion_is_a_match(
            state.branches@,
            add_worktree::reading(state.tab_prefix),
            state.filter@,
            Some(state.occupied_branches@),
        );
    }
}

/// Below the first row, every row that the cursor reaches is a branch that has no worktree.
pub proof fn law_reachable_branches_are_free(state: AddWorktreeState)
    requires
        state.mode == AddWorktreeMode::Branch,
        0 < state.cursor <= state.last_row(),
    ensures
        state.choice() matches Some(JobView::CreateBranch { name, base_branch }) && base_branch is None
            && !state.occupied_branches@.contains(name),
{
    let pred = add_worktree::free_branch(
        state.branches@,
        state.search(),
        state.occupied_branches@,
    );
    assert(state.branches@.len() == state.branches.len());
    crate::select::lemma_picked(state.branches@.len(), pred);
    let k = state.cursor - 1;
    assert(state.visible()[k] == state.free()[k]);
    assert(pred(state.free()[k] as int));
}

/// The list of pull requests is asked for once: whoever sees them has asked for them, and after that
/// no switch asks again.
pub proof fn law_prs_are_fetched_once(state: AddWorktreeState)
    requires
        state.mode == AddWorktreeMode::Pr ==> state.pr_list is Some,
    ensures
        state.mode_toggled().mode == AddWorktreeMode::Pr ==> state.mode_toggled().pr_list is Some,
        !state.mode_toggled().lacks_prs(),
        !state.mode_toggled().mode_toggled().lacks_prs(),
{
}

/// Switching modes and back leads back to the same mode. Nothing is left changed but the cursor, which
/// is at the start, the editing of the base, which has ended, and the list of pull requests, where it
/// was asked for now.
pub proof fn law_switching_modes_undoes(state: AddWorktreeState)
    ensures
        state.mode_toggled().mode != state.mode,
        ({
            let back = state.mode_toggled().mode_toggled();
            &&& back == (AddWorktreeState {
                cursor: 0,
                editing_base: false,
                pr_list: back.pr_list,
                pr_request_counter: back.pr_request_counter,
                ..state
            })
            &&& state.pr_list is Some ==> back.pr_list == state.pr_list && back.pr_request_counter
                == state.pr_request_counter
        }),
{
}

/// Beginning to edit the base and ending it at once keeps the base, as long as it has no whitespace at
/// either end, and leaves nothing typed; in the list of pull requests it changes nothing.
pub proof fn law_untouched_base_is_kept(
    state: AddWorktreeState,
    begun: AddWorktreeState,
    ended: AddWorktreeState,
)
    requires
        !state.editing_base,
        base_toggled(state, begun),
        base_toggled(begun, ended),
    ensures
        state.mode == AddWorktreeMode::Branch ==> {
            &&& ended == (AddWorktreeState {
                base_branch: ended.base_branch,
                base_filter: ended.base_filter,
                base_tab_prefix: None,
                ..state
            })
            &&& ended.base_filter@.len() == 0
            &&& text::trim_both(state.base_branch@) == state.base_branch@ ==> ended.base_branch@
                == state.base_branch@
        },
        state.mode == AddWorktreeMode::Pr ==> ended == state,
{
}

/// One worktree more takes its own branch, and no other; without worktrees none is taken.
pub proof fn law_worktrees_take_their_branches(
    worktrees: Seq<WorktreeInfo>,
    w: WorktreeInfo,
    branch: Seq<char>,
)
    ensures
        !on_branch(Seq::empty(), branch),
        on_branch(worktrees.push(w), branch) <==> on_branch(worktrees, branch) || w.branch@ == branch,
{
    let all = worktrees.push(w);
    if on_branch(worktrees, branch) {
        let i = choose|i: int| 0 <= i < worktrees.len() && (#[trigger] worktrees[i]).branch@ == branch;
        assert(all[i].branch@ == branch);
    }
    if w.branch@ == branch {
        assert(all[worktrees.len() as int].branch@ == branch);
    }
    if on_branch(all, branch) {
        let i = choose|i: int| 0 <= i < all.len() && (#[trigger] all[i]).branch@ == branch;
        if i < worktrees.len() {
            assert(worktrees[i].branch@ == branch);
        }
    }
}

/// The status line names the branch or the pull request that a job is about.
pub proof fn law_status_names_the_job(name: Seq<char>, base_branch: Option<Seq<char>>, pr_number: u32)
    ensures
        job_message(JobView::CreateBranch { name, base_branch }) == "Creating worktree '"@ + (name
            + "'..."@),
        job_message(JobView::CheckoutPr { pr_number }) == "Checking out PR #"@ + (
        text::decimal_text(pr_number as nat) + "..."@),
{
    assert("Creating worktree '"@ + name + "'..."@ =~= "Creating worktree '"@ + (name + "'..."@));
    let d = text::decimal_text(pr_number as nat);
    assert("Checking out PR #"@ + d + "..."@ =~= "Checking out PR #"@ + (d + "..."@));
}

/// A new branch starts from the configured base where there is one, whatever else there is; else from
/// the current branch, trimmed, unless it is blank; else from the default branch; and else from `main`.
pub proof fn law_default_base_goes_in_order(
    configured: Option<String>,
    current: Option<String>,
    default_branch: Option<String>,
)
    ensures
        ({
            let base = default_base(configured, current, default_branch);
            let usable = current is Some && text::trim_both(current->0@).len() > 0;
            &&& configured matches Some(c) ==> base == c@
            &&& configured is None && usable ==> base == text::trim_both(current->0@)
            &&& configured is None && !usable && default_branch is Some ==> base == default_branch->0@
            &&& configured is None && !usable && default_branch is None ==> base == "main"@
        }),
{
}

/// Typing a name changes the name, puts the cursor at the start and ends a completion, and changes
/// nothing else; typing a base changes the base's field and ends its completion, and nothing else.
pub proof fn law_typing_changes_one_field(
    before: AddWorktreeState,
    after: AddWorktreeState,
    typed: Seq<char>,
)
    ensures
        retyped(before, after, typed) ==> {
            &&& after.filter@ == typed
            &&& after.cursor == 0
            &&& after.tab_prefix is None
            &&& after.base_branch == before.base_branch
            &&& after.editing_base == before.editing_base
            &&& after.base_filter == before.base_filter
            &&& after.base_tab_prefix == before.base_tab_prefix
        },
        base_retyped(before, after, typed) ==> {
            &&& after.base_filter@ == typed
            &&& after.base_tab_prefix is None
            &&& after.filter == before.filter
            &&& after.cursor == before.cursor
            &&& after.tab_prefix == before.tab_prefix
            &&& after.base_branch == before.base_branch
            &&& after.editing_base == before.editing_base
        },
        retyped(before, after, typed) || base_retyped(before, after, typed) ==> {
            &&& after.branches == before.branches
            &&& after.occupied_branches == before.occupied_branches
            &&& after.repo_path == before.repo_path
            &&& after.mode == before.mode
            &&& after.pr_list == before.pr_list
            &&& after.pr_request_counter == before.pr_request_counter
        },
{
}

/// Editing the base begins with the base in the field; ending it makes what is in the field the base,
/// trimmed, unless that is blank, and empties the field. The rest of the modal stays as it is, and in
/// the list of pull requests all of it.
pub proof fn law_base_is_edited_in_its_field(before: AddWorktreeState, after: AddWorktreeState)
    requires
        base_toggled(before, after),
    ensures
        before.mode == AddWorktreeMode::Pr ==> after == before,
        before.mode == AddWorktreeMode::Branch ==> {
            let typed = text::trim_both(before.base_filter@);
            &&& after.editing_base == !before.editing_base
            &&& after.base_tab_prefix is None
            &&& !before.editing_base ==> after.base_filter == before.base_branch
                && after.base_branch == before.base_branch
            &&& before.editing_base ==> after.base_filter@.len() == 0
            &&& before.editing_base && typed.len() > 0 ==> after.base_branch@ == typed
            &&& before.editing_base && typed.len() == 0 ==> after.base_branch@ == before.base_branch@
        },
        after.filter == before.filter,
        after.cursor == before.cursor,
        after.tab_prefix == before.tab_prefix,
        after.branches == before.branches,
        after.occupied_branches == before.occupied_branches,
        after.repo_path == before.repo_path,
        after.mode == before.mode,
        after.pr_list == before.pr_list,
        after.pr_request_counter == before.pr_request_counter,
{
}

/// A step down goes by one as far as the last row, and changes nothing else.
pub proof fn law_step_down_stops_at_the_last_row(state: AddWorktreeState)
    requires
        state.last_row() <= usize::MAX,
    ensures
        state.cursor < state.last_row() ==> state.down().cursor == state.cursor + 1,
        state.cursor >= state.last_row() ==> state.down().cursor == state.cursor,
        state.down() == (AddWorktreeState { cursor: state.down().cursor, ..state }),
{
}

/// Completing puts a completed branch in the field and its row under the cursor, and keeps what was
/// typed first; where nothing completes it, only that is kept. Nothing else changes. The same holds of
/// the base, which passes no branch over and moves no cursor.
pub proof fn law_completing_keeps_what_was_typed(state: AddWorktreeState)
    ensures
        ({
            let after = state.completed();
            let found = add_worktree::completion(
                state.branches@,
                add_worktree::reading(state.tab_prefix),
                state.filter@,
                Some(state.occupied_branches@),
            );
            &&& after == (AddWorktreeState {
                filter: after.filter,
                cursor: after.cursor,
                tab_prefix: after.tab_prefix,
                ..state
            })
            &&& state.tab_prefix is None ==> after.tab_prefix == Some(state.filter)
            &&& state.tab_prefix is Some ==> after.tab_prefix == state.tab_prefix
            &&& found is None ==> after.filter == state.filter && after.cursor == state.cursor
            &&& found matches Some(i) ==> {
                let row = add_worktree::picker_row(state.free(), i);
                &&& after.filter == state.branches@[i as int]
                &&& row is None ==> after.cursor == state.cursor
                &&& row matches Some(r) ==> after.cursor == r
            }
        }),
        ({
            let after = state.base_completed();
            let found = add_worktree::completion(
                state.branches@,
                add_worktree::reading(state.base_tab_prefix),
                state.base_filter@,
                None,
            );
            &&& after == (AddWorktreeState {
                base_filter: after.base_filter,
                base_tab_prefix: after.base_tab_prefix,
                ..state
            })
            &&& state.base_tab_prefix is None ==> after.base_tab_prefix == Some(state.base_filter)
            &&& state.base_tab_prefix is Some ==> after.base_tab_prefix == state.base_tab_prefix
            &&& found is None ==> after.base_filter == state.base_filter
            &&& found matches Some(i) ==> after.base_filter == state.branches@[i as int]
        }),
{
}

/// A switch of modes puts the cursor at the start. The one to the pull requests ends the editing of the
/// base, and asks for their list, under the next number, where there is none. Nothing else changes.
pub proof fn law_mode_switch_changes_nothing_else(state: AddWorktreeState)
    requires
        state.pr_request_counter < u64::MAX,
    ensures
        ({
            let after = state.mode_toggled();
            &&& after == (AddWorktreeState {
                mode: after.mode,
                cursor: 0,
                editing_base: after.editing_base,
                pr_list: after.pr_list,
                pr_request_counter: after.pr_request_counter,
                ..state
            })
            &&& after.mode != state.mode
            &&& state.lacks_prs() <==> state.mode == AddWorktreeMode::Branch && state.pr_list is None
            &&& state.mode == AddWorktreeMode::Branch ==> !after.editing_base
            &&& state.mode == AddWorktreeMode::Pr ==> after.editing_base == state.editing_base
            &&& state.lacks_prs() ==> after.pr_list == Some(PrListState::Loading)
                && after.pr_request_counter == state.pr_request_counter + 1
            &&& !state.lacks_prs() ==> after.pr_list == state.pr_list && after.pr_request_counter
                == state.pr_request_counter
        }),
{
}

/// What confirming the modal does. On the first row of the branches, a typed number checks that pull
/// request out, and another name creates that branch from the base; a blank one does nothing. On a row
/// below, the branch listed there is taken as it is. Among the pull requests, the one at the cursor is
/// checked out.
pub proof fn law_confirming_goes_by_the_row(state: AddWorktreeState, prs: Vec<PrEntry>)
    ensures
        state.mode == AddWorktreeMode::Branch && state.cursor == 0 ==> {
            let name = text::trim_both(state.filter@);
            let number = add_worktree::pr_number_in(state.filter@);
            &&& number matches Some(pr_number) ==> state.choice() == Some(
                JobView::CheckoutPr { pr_number },
            )
            &&& number is None && name.len() == 0 ==> state.choice() is None
            &&& number is None && name.len() > 0 ==> state.choice() == Some(
                JobView::CreateBranch { name, base_branch: Some(state.base_branch@) },
            )
        },
        state.mode == AddWorktreeMode::Branch && state.cursor > 0 ==> {
            &&& state.cursor > state.visible().len() ==> state.choice() is None
            &&& state.cursor <= state.visible().len() ==> state.choice() == Some(
                JobView::CreateBranch {
                    name: state.branches@[state.visible()[state.cursor - 1] as int]@,
                    base_branch: None,
                },
            )
        },
        state.mode == AddWorktreeMode::Pr && state.cursor >= state.visible_prs().len()
            ==> state.choice() is None,
        state.mode == AddWorktreeMode::Pr && state.pr_list == Some(PrListState::Loaded { prs })
            && state.cursor < state.visible_prs().len() ==> state.choice() == Some(
            JobView::CheckoutPr {
                pr_number: prs@[state.visible_prs()[state.cursor as int] as int].number,
            },
        ),
{
}

/// A change of the modal leaves the rest of the dashboard as it is, and makes no modal where there is
/// none.
pub proof fn law_modal_changes_nothing_else(
    before: App,
    after: App,
    change: spec_fn(AddWorktreeState, AddWorktreeState) -> bool,
)
    requires
        App::modal_changed(before, after, change),
    ensures
        after == (App { pending_add_worktree: after.pending_add_worktree, ..before }),
        after.pending_add_worktree is Some <==> before.pending_add_worktree is Some,
        before.pending_add_worktree is Some ==> change(
            before.pending_add_worktree->0,
            after.pending_add_worktree->0,
        ),
{
}

} // verus!
