//! Picking the branch that a worktree's branch is based on.

use vstd::prelude::*;
use vstd::string::StringExecFns;
use crate::app::App;
use crate::order;
use crate::paths;
use crate::picker;
use crate::picker::BaseBranchPicker;
use crate::select;
use crate::text;
use crate::types::{DashboardTab, GitStatus, WorktreeInfo};

verus! {

/// What stands for the branch of a worktree that has none checked out.
pub const DETACHED: &'static str = "(detached)";

/// The branch whose base is to be picked, where it is checked out, and its base.
#[derive(Debug)]
pub struct BaseTarget {
    pub repo_path: String,
    pub branch: String,
    pub base: Option<String>,
}

/// A base as it was picked: which branch gets which base, and in which repository.
#[derive(Debug)]
pub struct BaseChoice {
    pub branch: String,
    pub new_base: String,
    pub repo_path: String,
}

/// The predicate of a branch other than one.
pub open spec fn other_than(branch: Seq<char>) -> spec_fn(String) -> bool {
    |b: String| b@ != branch
}

/// The predicate of a place with a text.
pub open spec fn text_at(texts: Seq<String>, text: Seq<char>) -> spec_fn(int) -> bool {
    |i: int| texts[i]@ == text
}

/// The branches with the current base first, where it is one of them; the rest keep their order.
pub open spec fn pinned(branches: Seq<String>, base: Option<String>) -> Seq<String> {
    match base {
        Some(b) => match select::first_index(branches.len(), text_at(branches, b@)) {
            Some(i) => branches.remove(i as int).insert(0, branches[i as int]),
            None => branches,
        },
        None => branches,
    }
}

/// The branches that may serve as base of one: all others, the current base first.
pub open spec fn base_choices(
    branches: Seq<String>,
    branch: Seq<char>,
    base: Option<String>,
) -> Seq<String> {
    pinned(branches.filter(other_than(branch)), base)
}

/// The worktree with a new base, where it is on the branch.
pub open spec fn with_base(branch: Seq<char>, base: String) -> spec_fn(
    WorktreeInfo,
) -> WorktreeInfo {
    |w: WorktreeInfo|
        if w.branch@ == branch {
            WorktreeInfo { base_branch: Some(base), ..w }
        } else {
            w
        }
}

/// Whether `after` is `before` with another filter and the cursor back at the start.
pub open spec fn refiltered(
    before: BaseBranchPicker,
    after: BaseBranchPicker,
    filter: Seq<char>,
) -> bool {
    &&& after == (BaseBranchPicker { cursor: 0, filter: after.filter, ..before })
    &&& after.filter@ == filter
}

/// Index of the first place with a text.
fn position_of_text(texts: &Vec<String>, text: &String) -> (r: Option<usize>)
    ensures
        r == select::first_index(texts@.len(), text_at(texts@, text@)),
        r matches Some(i) ==> i < texts@.len(),
{
    let ghost pred = text_at(texts@, text@);
    select::find_first(
        texts.len(),
        Ghost(pred),
        |i: usize| -> (b: bool)
            requires
                i < texts@.len(),
            ensures
                b == pred(i as int)
            { texts[i] == *text },
    )
}

/// The branches that may serve as base of one: all others, the current base first.
pub fn offered_bases(branches: &Vec<String>, branch: &String, base: &Option<String>) -> (r: Vec<
    String,
>)
    ensures
        r@ == base_choices(branches@, branch@, *base),
{
    let mut others: Vec<String> = Vec::new();
    let mut i: usize = 0;
    proof {
        reveal(Seq::filter);
    }
    while i < branches.len()
        invariant
            i <= branches@.len(),
            others@ == branches@.take(i as int).filter(other_than(branch@)),
        decreases branches@.len() - i,
    {
        proof {
            reveal(Seq::filter);
            assert(branches@.take(i + 1).drop_last() == branches@.take(i as int));
        }
        if branches[i] != *branch {
            others.push(branches[i].clone());
        }
        i = i + 1;
    }
    assert(branches@.take(i as int) == branches@);
    if let Some(b) = base {
        if let Some(pos) = position_of_text(&others, b) {
            let first = others.remove(pos);
            others.insert(0, first);
        }
    }
    others
}

/// Sets the base of every worktree on a branch.
fn set_base(worktrees: &mut Vec<WorktreeInfo>, branch: &String, base: &String)
    ensures
        final(worktrees)@ == old(worktrees)@.map_values(with_base(branch@, *base)),
{
    let ghost f = with_base(branch@, *base);
    let ghost before = worktrees@;
    let mut i: usize = 0;
    while i < worktrees.len()
        invariant
            i <= worktrees@.len(),
            worktrees@.len() == before.len(),
            f == with_base(branch@, *base),
            forall|j: int| 0 <= j < i ==> worktrees@[j] == f(before[j]),
            forall|j: int| i <= j < before.len() ==> worktrees@[j] == before[j],
        decreases worktrees@.len() - i,
    {
        if worktrees[i].branch == *branch {
            worktrees[i].base_branch = Some(base.clone());
        }
        i = i + 1;
    }
    assert(worktrees@ =~= before.map_values(f));
}

impl App {
    /// Whether the status line says `message`, as of `now`.
    pub open spec fn reports(self, message: Seq<char>, now: i64) -> bool {
        self.status_message matches Some((said, at)) && said@ == message && at == now
    }

    /// Takes the outcome of listing a repository's branches; a failure goes to the status line.
    pub fn list_branches_for_status(
        &mut self,
        listed: Option<Vec<String>>,
        now: i64,
    ) -> (r: Option<Vec<String>>)
        ensures
            r == listed,
            listed is Some ==> *final(self) == *old(self),
            listed is None ==> {
                &&& *final(self) == (App {
                    status_message: final(self).status_message,
                    ..*old(self)
                })
                &&& final(self).reports("Failed to list branches"@, now)
            },
    {
        if listed.is_none() {
            self.status_message = Some(("Failed to list branches".to_owned(), now));
        }
        listed
    }

    /// The selected agent's path, on the agent tab; its branch and that branch's base are to be
    /// looked up there.
    pub open spec fn agent_path(self) -> Option<String> {
        match (self.active_tab, self.table_state.selected) {
            (DashboardTab::Agents, Some(i)) => if i < self.agents@.len() {
                Some(self.agents@[i as int].path)
            } else {
                None
            },
            _ => None,
        }
    }

    /// The branch whose base is to be picked: on the worktree tab that of the selected row, unless
    /// it is the main worktree; on the agent tab the one checked out where the selected agent
    /// works. A detached worktree has none.
    pub open spec fn base_target(
        self,
        agent_branch: Option<String>,
        agent_base: Option<String>,
    ) -> Option<BaseTarget> {
        match self.active_tab {
            DashboardTab::Worktrees => match self.row() {
                Some(w) => if w.is_main || w.branch@ == DETACHED@ {
                    None
                } else {
                    Some(
                        BaseTarget {
                            repo_path: w.path,
                            branch: w.branch,
                            base: w.base_branch,
                        },
                    )
                },
                None => None,
            },
            DashboardTab::Agents => match (self.agent_path(), agent_branch) {
                (Some(path), Some(branch)) => if branch@.len() == 0 || branch@ == DETACHED@ {
                    None
                } else {
                    Some(BaseTarget { repo_path: path, branch, base: agent_base })
                },
                _ => None,
            },
        }
    }

    /// The selected agent's path, on the agent tab.
    pub fn base_picker_agent(&self) -> (r: Option<String>)
        ensures
            r == self.agent_path(),
    {
        match self.active_tab {
            DashboardTab::Agents => match self.table_state.selected() {
                Some(i) => if i < self.agents.len() {
                    Some(self.agents[i].path.clone())
                } else {
                    None
                },
                None => None,
            },
            DashboardTab::Worktrees => None,
        }
    }

    /// The branch whose base is to be picked; the branches of its repository are to be listed.
    /// `agent_branch` and `agent_base` are what was found at the selected agent's path.
    pub fn base_picker_target(
        &self,
        agent_branch: Option<String>,
        agent_base: Option<String>,
    ) -> (r: Option<BaseTarget>)
        ensures
            r == self.base_target(agent_branch, agent_base),
    {
        match self.active_tab {
            DashboardTab::Worktrees => {
                let selected: usize = match self.worktree_table_state.selected() {
                    Some(i) => i,
                    None => {
                        return None;
                    },
                };
                if selected >= self.worktrees.len() {
                    return None;
                }
                let w = &self.worktrees[selected];
                if w.is_main || text::same_text(w.branch.as_str(), DETACHED) {
                    return None;
                }
                Some(
                    BaseTarget {
                        repo_path: w.path.clone(),
                        branch: w.branch.clone(),
                        base: w.base_branch.clone(),
                    },
                )
            },
            DashboardTab::Agents => match (self.base_picker_agent(), agent_branch) {
                (Some(path), Some(branch)) => {
                    if branch.as_str().is_empty() || text::same_text(branch.as_str(), DETACHED) {
                        return None;
                    }
                    Some(BaseTarget { repo_path: path, branch, base: agent_base })
                },
                _ => None,
            },
        }
    }

    /// Opens the base branch picker on the branch that `base_picker_target` gives. `listed` holds
    /// the local branches of its repository, where they could be listed.
    pub fn show_base_branch_picker(
        &mut self,
        agent_branch: Option<String>,
        agent_base: Option<String>,
        listed: Option<Vec<String>>,
        now: i64,
    )
        ensures
            match old(self).base_target(agent_branch, agent_base) {
                Some(target) => match listed {
                    Some(branches) => {
                        &&& *final(self) == (App {
                            pending_base_picker: final(self).pending_base_picker,
                            ..*old(self)
                        })
                        &&& final(self).pending_base_picker matches Some(p)
                        &&& p.branches@ == base_choices(branches@, target.branch@, target.base)
                        &&& p.cursor == 0
                        &&& p.filter@.len() == 0
                        &&& p.wf()
                        &&& p.current_base == target.base
                        &&& p.worktree_branch == target.branch
                        &&& p.repo_path == target.repo_path
                    },
                    None => {
                        &&& *final(self) == (App {
                            status_message: final(self).status_message,
                            ..*old(self)
                        })
                        &&& final(self).reports("Failed to list branches"@, now)
                    },
                },
                None => *final(self) == *old(self),
            },
    {
        let target = match self.base_picker_target(agent_branch, agent_base) {
            Some(target) => target,
            None => {
                return ;
            },
        };
        let branches = match self.list_branches_for_status(listed, now) {
            Some(branches) => branches,
            None => {
                return ;
            },
        };
        let branches = offered_bases(&branches, &target.branch, &target.base);
        self.pending_base_picker = Some(
            BaseBranchPicker {
                branches,
                cursor: 0,
                filter: String::new(),
                current_base: target.base,
                worktree_branch: target.branch,
                repo_path: target.repo_path,
            },
        );
    }

    /// Moves the cursor of the base branch picker down.
    pub fn base_picker_down(&mut self)
        ensures
            *final(self) == (App {
                pending_base_picker: match old(self).pending_base_picker {
                    Some(p) => Some(
                        BaseBranchPicker {
                            cursor: picker::stepped_down(p.cursor, p.visible().len()),
                            ..p
                        },
                    ),
                    None => None,
                },
                ..*old(self)
            }),
    {
        if let Some(ref mut p) = self.pending_base_picker {
            let shown = p.filtered();
            p.cursor = picker::step_down(p.cursor, shown.len());
        }
    }

    /// Moves the cursor of the base branch picker up.
    pub fn base_picker_up(&mut self)
        ensures
            *final(self) == (App {
                pending_base_picker: match old(self).pending_base_picker {
                    Some(p) => Some(
                        BaseBranchPicker { cursor: picker::stepped_up(p.cursor), ..p },
                    ),
                    None => None,
                },
                ..*old(self)
            }),
    {
        if let Some(ref mut p) = self.pending_base_picker {
            p.cursor = picker::step_up(p.cursor);
        }
    }

    /// Appends a character to the filter of the base branch picker.
    pub fn base_picker_filter_append(&mut self, c: char)
        ensures
            *final(self) == (App {
                pending_base_picker: final(self).pending_base_picker,
                ..*old(self)
            }),
            match old(self).pending_base_picker {
                Some(before) => final(self).pending_base_picker matches Some(after) && refiltered(
                    before,
                    after,
                    before.filter@.push(c),
                ),
                None => final(self).pending_base_picker is None,
            },
    {
        if let Some(ref mut p) = self.pending_base_picker {
            p.filter.push(c);
            p.cursor = 0;
        }
    }

    /// Deletes the last character of the filter of the base branch picker.
    pub fn base_picker_filter_delete(&mut self)
        ensures
            *final(self) == (App {
                pending_base_picker: final(self).pending_base_picker,
                ..*old(self)
            }),
            match old(self).pending_base_picker {
                Some(before) => final(self).pending_base_picker matches Some(after) && refiltered(
                    before,
                    after,
                    text::without_last(before.filter@),
                ),
                None => final(self).pending_base_picker is None,
            },
    {
        if let Some(ref mut p) = self.pending_base_picker {
            p.filter.pop();
            p.cursor = 0;
        }
    }

    /// What confirming the base branch picker asks for.
    pub open spec fn base_choice(self) -> Option<BaseChoice> {
        match self.pending_base_picker {
            Some(p) => match p.chosen() {
                Some(base) => Some(
                    BaseChoice {
                        branch: p.worktree_branch,
                        new_base: base,
                        repo_path: p.repo_path,
                    },
                ),
                None => None,
            },
            None => None,
        }
    }

    /// What confirming the base branch picker asks for: the base is to be set in the repository
    /// before the picker is confirmed.
    pub fn base_picker_choice(&self) -> (r: Option<BaseChoice>)
        ensures
            r == self.base_choice(),
    {
        match &self.pending_base_picker {
            Some(p) => {
                let shown = p.filtered();
                if p.cursor >= shown.len() {
                    return None;
                }
                let new_base = p.branches[shown[p.cursor]].clone();
                Some(
                    BaseChoice {
                        branch: p.worktree_branch.clone(),
                        new_base,
                        repo_path: p.repo_path.clone(),
                    },
                )
            },
            None => None,
        }
    }

    /// Closes the base branch picker. `set` is the outcome of setting the chosen base in the
    /// repository: once set, it shows at once in every row on the branch and in the cached status,
    /// and a refetch is due; a failure goes to the status line.
    pub fn confirm_base_picker(&mut self, set: Result<(), String>, now: i64)
        requires
            now >= i64::MIN + crate::app::REFETCH_BACKDATE,
        ensures
            match old(self).base_choice() {
                Some(choice) => match set {
                    Ok(_) => {
                        &&& *final(self) == (App {
                            pending_base_picker: None,
                            all_worktrees: final(self).all_worktrees,
                            worktrees: final(self).worktrees,
                            git_statuses: final(self).git_statuses,
                            status_message: final(self).status_message,
                            last_worktree_fetch: App::due(now),
                            ..*old(self)
                        })
                        &&& final(self).all_worktrees@ == old(self).all_worktrees@.map_values(
                            with_base(choice.branch@, choice.new_base),
                        )
                        &&& final(self).worktrees@ == old(self).worktrees@.map_values(
                            with_base(choice.branch@, choice.new_base),
                        )
                        &&& final(self).git_statuses@ == (if old(
                            self,
                        ).git_statuses@.contains_key(paths::components(choice.repo_path@)) {
                            old(self).git_statuses@.insert(
                                paths::components(choice.repo_path@),
                                GitStatus {
                                    base_branch: choice.new_base,
                                    ..old(self).git_statuses@[paths::components(choice.repo_path@)]
                                },
                            )
                        } else {
                            old(self).git_statuses@
                        })
                        &&& final(self).reports(
                            "Base for '"@ + choice.branch@ + "' set to '"@ + choice.new_base@
                                + "'"@,
                            now,
                        )
                    },
                    Err(e) => {
                        &&& *final(self) == (App {
                            pending_base_picker: None,
                            status_message: final(self).status_message,
                            ..*old(self)
                        })
                        &&& final(self).reports("Failed to set base: "@ + e@, now)
                    },
                },
                None => *final(self) == (App { pending_base_picker: None, ..*old(self) }),
            },
    {
        let choice = self.base_picker_choice();
        self.pending_base_picker = None;
        let choice = match choice {
            Some(choice) => choice,
            None => {
                return ;
            },
        };
        match set {
            Err(e) => {
                self.status_message = Some(
                    (text::concat("Failed to set base: ", e.as_str()), now),
                );
            },
            Ok(_) => {
                set_base(&mut self.all_worktrees, &choice.branch, &choice.new_base);
                set_base(&mut self.worktrees, &choice.branch, &choice.new_base);
                let updated: Option<GitStatus> = match self.git_statuses.get(
                    choice.repo_path.as_str(),
                ) {
                    Some(status) => Some(
                        GitStatus {
                            is_dirty: status.is_dirty,
                            has_upstream: status.has_upstream,
                            base_branch: choice.new_base.clone(),
                        },
                    ),
                    None => None,
                };
                if let Some(status) = updated {
                    self.git_statuses.insert(choice.repo_path.clone(), status);
                }
                let mut message: String = "Base for '".to_owned();
                message.append(choice.branch.as_str());
                message.append("' set to '");
                message.append(choice.new_base.as_str());
                message.append("'");
                self.status_message = Some((message, now));
                self.trigger_worktree_refetch(now);
            },
        }
    }
}

/// The cursor of the base branch picker stays on an entry that the filter lets through, whichever key
/// is pressed; and so, as long as there is such an entry, one is chosen.
pub proof fn law_base_cursor_stays_on_an_entry(
    p: BaseBranchPicker,
    after: BaseBranchPicker,
    filter: Seq<char>,
)
    requires
        p.wf(),
    ensures
        (BaseBranchPicker { cursor: picker::stepped_down(p.cursor, p.visible().len()), ..p }).wf(),
        (BaseBranchPicker { cursor: picker::stepped_up(p.cursor), ..p }).wf(),
        refiltered(p, after, filter) ==> after.wf(),
        p.visible().len() > 0 ==> p.chosen() is Some,
{
}

/// The picker offers every branch but the worktree's own, and the current base first where it is
/// offered.
pub proof fn law_base_choices(
    branches: Seq<String>,
    branch: Seq<char>,
    base: Option<String>,
    b: Seq<char>,
)
    requires
        branches.len() <= usize::MAX,
    ensures
        order::among(base_choices(branches, branch, base), b) <==> order::among(branches, b) && b
            != branch,
        base matches Some(current) ==> (order::among(branches, current@) && current@ != branch
            ==> base_choices(branches, branch, base)[0]@ == current@),
{
    let others = branches.filter(other_than(branch));
    branches.lemma_filter_len(other_than(branch));
    lemma_other_branches(branches, branch, b);
    let choices = base_choices(branches, branch, base);
    if base is Some {
        let current = base->0;
        lemma_other_branches(branches, branch, current@);
        let pred = text_at(others, current@);
        select::lemma_first_index(others.len(), pred);
        if order::among(others, current@) {
            let j = choose|j: int| 0 <= j < others.len() && (#[trigger] others[j])@ == current@;
            assert(pred(j));
        }
        if let Some(i) = select::first_index(others.len(), pred) {
            let k = i as int;
            assert(pred(k));
            assert(choices[0] == others[k]);
            if order::among(others, b) {
                let j = choose|j: int| 0 <= j < others.len() && (#[trigger] others[j])@ == b;
                if j == k {
                    assert(choices[0]@ == b);
                } else if j < k {
                    assert(choices[j + 1] == others[j]);
                } else {
                    assert(choices[j] == others[j]);
                }
            }
            if order::among(choices, b) {
                let j = choose|j: int| 0 <= j < choices.len() && (#[trigger] choices[j])@ == b;
                if j == 0 {
                    assert(others[k]@ == b);
                } else if j <= k {
                    assert(choices[j] == others[j - 1]);
                } else {
                    assert(choices[j] == others[j]);
                }
            }
        }
    }
}

proof fn lemma_other_branches(branches: Seq<String>, branch: Seq<char>, b: Seq<char>)
    ensures
        order::among(branches.filter(other_than(branch)), b) <==> order::among(branches, b) && b
            != branch,
{
    broadcast use vstd::seq_lib::group_filter_ensures;

    let others = branches.filter(other_than(branch));
    if order::among(others, b) {
        let j = choose|j: int| 0 <= j < others.len() && (#[trigger] others[j])@ == b;
        assert(others.contains(others[j]));
        branches.lemma_filter_contains_rev(other_than(branch), others[j]);
        branches.lemma_filter_pred(other_than(branch), j);
        let i = choose|i: int| 0 <= i < branches.len() && branches[i] == others[j];
        assert(branches[i]@ == b);
    }
    if order::among(branches, b) && b != branch {
        let i = choose|i: int| 0 <= i < branches.len() && (#[trigger] branches[i])@ == b;
        branches.lemma_filter_contains(other_than(branch), i);
        let j = choose|j: int| 0 <= j < others.len() && others[j] == branches[i];
        assert(others[j]@ == b);
    }
}

/// Setting a base changes the rows on that branch and no other, and of those nothing but the base.
pub proof fn law_base_is_set_on_its_branch_alone(
    rows: Seq<WorktreeInfo>,
    branch: Seq<char>,
    base: String,
    i: int,
)
    requires
        0 <= i < rows.len(),
    ensures
        ({
            let after = rows.map_values(with_base(branch, base));
            &&& after.len() == rows.len()
            &&& rows[i].branch@ != branch ==> after[i] == rows[i]
            &&& rows[i].branch@ == branch ==> after[i].base_branch == Some(base)
            &&& after[i].branch == rows[i].branch
            &&& after[i].path == rows[i].path
            &&& after[i].handle == rows[i].handle
            &&& after[i].is_main == rows[i].is_main
            &&& after[i].mode == rows[i].mode
            &&& after[i].has_mux_window == rows[i].has_mux_window
            &&& after[i].has_unmerged == rows[i].has_unmerged
            &&& after[i].pr_info == rows[i].pr_info
            &&& after[i].created_at == rows[i].created_at
        }),
{
}

/// Without a base the choices are the branches but the worktree's own, in their order: one branch more
/// is one choice more, unless it is the worktree's own.
pub proof fn law_choices_keep_their_order(branches: Seq<String>, more: String, branch: Seq<char>)
    ensures
        base_choices(Seq::empty(), branch, None) == Seq::<String>::empty(),
        base_choices(branches.push(more), branch, None) == (if more@ == branch {
            base_choices(branches, branch, None)
        } else {
            base_choices(branches, branch, None).push(more)
        }),
{
    reveal(Seq::filter);
    assert(branches.push(more).drop_last() =~= branches);
}

/// The current base is pinned: where it is a choice, its first place goes to the top and the rest move
/// down by one as far as that place; where it is none, nothing moves.
pub proof fn law_current_base_is_pinned(
    branches: Seq<String>,
    branch: Seq<char>,
    base: String,
    i: int,
)
    requires
        branches.len() <= usize::MAX,
    ensures
        ({
            let plain = base_choices(branches, branch, None);
            let choices = base_choices(branches, branch, Some(base));
            &&& choices.len() == plain.len()
            &&& (forall|j: int| 0 <= j < plain.len() ==> (#[trigger] plain[j])@ != base@)
                ==> choices == plain
            &&& 0 <= i < plain.len() && plain[i]@ == base@ && (forall|j: int|
                0 <= j < i ==> (#[trigger] plain[j])@ != base@) ==> {
                &&& choices[0] == plain[i]
                &&& forall|j: int| 0 <= j < i ==> (#[trigger] choices[j + 1]) == plain[j]
                &&& forall|j: int| i < j < plain.len() ==> (#[trigger] choices[j]) == plain[j]
            }
        }),
{
    let plain = base_choices(branches, branch, None);
    let choices = base_choices(branches, branch, Some(base));
    branches.lemma_filter_len(other_than(branch));
    let pred = text_at(plain, base@);
    select::lemma_first_index(plain.len(), pred);
    if forall|j: int| 0 <= j < plain.len() ==> (#[trigger] plain[j])@ != base@ {
        assert forall|j: int| 0 <= j < plain.len() implies !(#[trigger] pred(j)) by {
            assert(plain[j]@ != base@);
        }
        select::lemma_none_found(plain.len(), pred);
    }
    if 0 <= i < plain.len() && plain[i]@ == base@ && (forall|j: int|
        0 <= j < i ==> (#[trigger] plain[j])@ != base@) {
        assert(pred(i));
        assert forall|j: int| 0 <= j < i implies !(#[trigger] pred(j)) by {
            assert(plain[j]@ != base@);
        }
        select::lemma_first_found(plain.len(), pred, i);
        assert(choices == plain.remove(i).insert(0, plain[i]));
    }
}

/// A base is picked for the branch of the row at the cursor, unless that is the main worktree or a
/// detached one; on the agent tab, for the branch that is checked out where the agent at the cursor
/// works, unless there is none. The repository is the row's own or the agent's own.
pub proof fn law_base_is_picked_for_the_cursor(
    app: App,
    agent_branch: Option<String>,
    agent_base: Option<String>,
)
    ensures
        ({
            let picked = app.base_target(agent_branch, agent_base);
            &&& app.active_tab == DashboardTab::Worktrees ==> {
                &&& app.agent_path() is None
                &&& match app.worktree_table_state.selected {
                    Some(i) if i < app.worktrees@.len() => {
                        let w = app.worktrees@[i as int];
                        &&& picked is Some <==> !w.is_main && w.branch@ != "(detached)"@
                        &&& picked matches Some(t) ==> t.repo_path == w.path && t.branch == w.branch
                            && t.base == w.base_branch
                    },
                    _ => picked is None,
                }
            }
            &&& app.active_tab == DashboardTab::Agents ==> match app.table_state.selected {
                Some(i) if i < app.agents@.len() => {
                    &&& app.agent_path() == Some(app.agents@[i as int].path)
                    &&& picked is Some <==> agent_branch is Some && agent_branch->0@.len() > 0
                        && agent_branch->0@ != "(detached)"@
                    &&& picked matches Some(t) ==> t.repo_path == app.agents@[i as int].path
                        && Some(t.branch) == agent_branch && t.base == agent_base
                },
                _ => app.agent_path() is None && picked is None,
            }
        }),
{
}

/// The base that is set is the one under the cursor, for the branch and in the repository that the
/// picker was opened on.
pub proof fn law_base_choice_is_under_the_cursor(app: App)
    ensures
        app.pending_base_picker is None ==> app.base_choice() is None,
        app.pending_base_picker matches Some(p) ==> {
            &&& app.base_choice() is Some <==> p.cursor < p.visible().len()
            &&& app.base_choice() matches Some(c) ==> {
                &&& c.branch == p.worktree_branch
                &&& c.repo_path == p.repo_path
                &&& c.new_base == p.branches@[p.visible()[p.cursor as int] as int]
            }
        },
{
}

/// Another filter leaves everything of the picker but the filter and the cursor, which goes back to the
/// start; and the status line says what was put there, as of then.
pub proof fn law_base_filter_changes_nothing_else(
    before: BaseBranchPicker,
    after: BaseBranchPicker,
    filter: Seq<char>,
    app: App,
    message: Seq<char>,
    now: i64,
)
    ensures
        refiltered(before, after, filter) <==> {
            &&& after.filter@ == filter
            &&& after.cursor == 0
            &&& after.branches == before.branches
            &&& after.current_base == before.current_base
            &&& after.worktree_branch == before.worktree_branch
            &&& after.repo_path == before.repo_path
        },
        app.reports(message, now) <==> match app.status_message {
            Some((said, at)) => said@ == message && at == now,
            None => false,
        },
{
}

} // verus!
