//! The values that the worktree tab shows and acts on.
//!
//! A path is held as UTF-8 text with `/` between its components, and compared component by component.
//! A moment is a number of milliseconds on one monotonic clock.

use vstd::prelude::*;

verus! {

/// The two tabs of the dashboard.
#[derive(Clone, Copy, PartialEq, Eq, Structural, Debug)]
pub enum DashboardTab {
    Agents,
    Worktrees,
}

/// How the worktree list is ordered.
#[derive(Clone, Copy, PartialEq, Eq, Structural, Debug)]
pub enum WorktreeSortMode {
    /// The order in which git lists the worktrees.
    Natural,
    /// The newest worktree first.
    Age,
}

impl WorktreeSortMode {
    /// The mode that follows in the cycle.
    pub open spec fn spec_next(self) -> WorktreeSortMode {
        match self {
            WorktreeSortMode::Natural => WorktreeSortMode::Age,
            WorktreeSortMode::Age => WorktreeSortMode::Natural,
        }
    }

    /// The mode that follows in the cycle.
    pub fn next(self) -> (r: WorktreeSortMode)
        ensures
            r == self.spec_next(),
    {
        match self {
            WorktreeSortMode::Natural => WorktreeSortMode::Age,
            WorktreeSortMode::Age => WorktreeSortMode::Natural,
        }
    }
}

/// What the multiplexer gives a worktree.
#[derive(Clone, Copy, PartialEq, Eq, Structural, Debug)]
pub enum MuxMode {
    Window,
    Session,
}

/// A pull request, as shown beside its branch.
#[derive(Debug)]
pub struct PrSummary {
    pub number: u32,
    pub title: String,
    /// `OPEN`, `MERGED` or `CLOSED`.
    pub state: String,
}

impl Clone for PrSummary {
    fn clone(&self) -> (r: Self)
        ensures
            r == *self,
    {
        PrSummary { number: self.number, title: self.title.clone(), state: self.state.clone() }
    }
}

/// One row of the worktree list.
#[derive(Debug)]
pub struct WorktreeInfo {
    pub branch: String,
    pub path: String,
    pub handle: String,
    pub is_main: bool,
    pub mode: MuxMode,
    pub has_mux_window: bool,
    pub has_unmerged: bool,
    pub pr_info: Option<PrSummary>,
    /// Seconds since the epoch, where they are known.
    pub created_at: Option<u64>,
    pub base_branch: Option<String>,
}

impl Clone for WorktreeInfo {
    fn clone(&self) -> (r: Self)
        ensures
            r == *self,
    {
        WorktreeInfo {
            branch: self.branch.clone(),
            path: self.path.clone(),
            handle: self.handle.clone(),
            is_main: self.is_main,
            mode: self.mode,
            has_mux_window: self.has_mux_window,
            has_unmerged: self.has_unmerged,
            pr_info: self.pr_info.clone(),
            created_at: self.created_at,
            base_branch: self.base_branch.clone(),
        }
    }
}

/// An agent at work in a pane.
#[derive(Debug)]
pub struct AgentPane {
    pub path: String,
    pub pane_id: String,
}

/// What git says of one worktree.
#[derive(Debug)]
pub struct GitStatus {
    pub is_dirty: bool,
    pub has_upstream: bool,
    pub base_branch: String,
}

/// A project: its name and the root of its repository.
#[derive(Debug)]
pub struct ProjectEntry {
    pub name: String,
    pub path: String,
}

impl Clone for ProjectEntry {
    fn clone(&self) -> (r: Self)
        ensures
            r == *self,
    {
        ProjectEntry { name: self.name.clone(), path: self.path.clone() }
    }
}

/// Which row of a table is selected.
#[derive(Clone, Copy, PartialEq, Eq, Structural, Debug)]
pub struct TableState {
    pub selected: Option<usize>,
}

impl TableState {
    /// The selected row.
    pub fn selected(&self) -> (r: Option<usize>)
        ensures
            r == self.selected,
    {
        self.selected
    }

    /// Selects a row, or none.
    pub fn select(&mut self, index: Option<usize>)
        ensures
            final(self).selected == index,
    {
        self.selected = index;
    }
}

/// A worktree whose removal waits for confirmation.
#[derive(Debug)]
pub struct RemovePlan {
    pub handle: String,
    pub path: String,
    pub is_dirty: bool,
    pub is_unmerged: bool,
    pub keep_branch: bool,
    pub force_armed: bool,
}

/// Whose worktrees to list.
#[derive(Debug)]
pub enum FetchScope {
    /// Those of the repository at this path, or of the one that the dashboard was started in.
    Project(Option<String>),
    /// Those of each of these repositories.
    AllProjects(Vec<String>),
}

/// A listing of worktrees: whose, whether their pull requests are looked up with them, and what the
/// list is narrowed down to, where it is.
#[derive(Debug)]
pub struct FetchRequest {
    pub scope: FetchScope,
    pub fetch_pr_status: bool,
    pub filter: Vec<String>,
}

/// Which parts of a worktree's setup run: its hooks, its file operations, its pane commands.
#[derive(Clone, Copy, PartialEq, Eq, Structural, Debug)]
pub struct SetupFlags {
    pub hooks: bool,
    pub files: bool,
    pub panes: bool,
}

/// A worktree whose window or session is to be opened; the configuration at its path says in which
/// mode.
#[derive(Debug)]
pub struct OpenRequest {
    pub handle: String,
    pub path: String,
}

/// What opening a worktree's window or session takes: its handle, what of its setup runs, in which
/// mode, whether a new window is made where there is one, and three further settings of the workflow.
#[derive(Debug)]
pub struct OpenArgs {
    pub handle: String,
    pub setup: SetupFlags,
    pub mode: MuxMode,
    pub new_window: bool,
    pub further: (Option<String>, Option<String>, Option<String>),
}

/// Where to jump to.
#[derive(Debug)]
pub enum JumpRequest {
    /// The pane with this id.
    SwitchToPane(String),
    /// The worktree's window or session, which is made where there is none.
    Open(OpenRequest),
}

/// What closing a worktree's window or session takes. Its full name is made of the configured prefix
/// and the handle.
#[derive(Debug)]
pub struct CloseRequest {
    pub prefix: String,
    pub handle: String,
    pub mode: MuxMode,
}

/// What removing a worktree takes: its handle and path, whether it goes even with uncommitted
/// changes, and whether its branch stays.
#[derive(Debug)]
pub struct RemoveRequest {
    pub handle: String,
    pub path: String,
    pub force: bool,
    pub keep_branch: bool,
}

/// The sort modes follow each other in a cycle of two.
pub proof fn law_sort_modes_cycle(mode: WorktreeSortMode)
    ensures
        mode.spec_next() != mode,
        mode.spec_next().spec_next() == mode,
{
}

} // verus!
